use vstd::prelude::*;
use crate::ast::{Expr, ExprV, Expression, Program, Statement, Stmt, TypeAnnotation, node_view};
use crate::errors::{ErrorCollector, VynError};
use crate::span::{Span, Spanned};
use crate::static_evaluator::{StaticEvaluator, StaticValue, lookup_static};
use crate::tokens::{Token, TokenType, spec_token_type};
use crate::types::Type;

verus! {

/// What the type checker knows of a declared name.
#[derive(Debug)]
pub struct SymbolType {
    pub symbol_type: Type,
    pub span: Span,
    pub mutable: bool,
    pub is_static: bool,
}

impl SymbolType {
    /// A copy of this symbol.
    pub fn copy(&self) -> (s: SymbolType)
        ensures
            s == *self,
    {
        SymbolType { symbol_type: self.symbol_type.copy(), span: self.span, mutable: self.mutable, is_static: self.is_static }
    }

    /// The symbol was declared `static`.
    pub fn is_static(&self) -> (b: bool)
        ensures
            b == self.is_static,
    {
        self.is_static
    }
}

/// The symbol most recently declared as `name` (inner scopes come later).
pub open spec fn resolve_spec(entries: Seq<(String, SymbolType, usize)>, name: Seq<char>) -> Option<SymbolType>
    decreases entries.len(),
{
    if entries.len() == 0 {
        None
    } else if entries.last().0@ == name {
        Some(entries.last().1)
    } else {
        resolve_spec(entries.drop_last(), name)
    }
}

/// A declaration shadows what came before: after one more entry, its name
/// resolves to it and every other name resolves as before.
pub proof fn law_declare_then_resolve(entries: Seq<(String, SymbolType, usize)>, e: (String, SymbolType, usize), name: Seq<char>)
    ensures
        resolve_spec(entries.push(e), name) == if e.0@ == name {
            Some(e.1)
        } else {
            resolve_spec(entries, name)
        },
{
    assert(entries.push(e).drop_last() =~= entries);
}

/// A name resolves to its latest declaration: the entry found is one for the
/// name, and no later entry declares the name again.
pub proof fn law_resolve_latest(entries: Seq<(String, SymbolType, usize)>, name: Seq<char>)
    ensures
        resolve_spec(entries, name) is None <==> forall|i: int| 0 <= i < entries.len() ==> (#[trigger] entries[i]).0@ != name,
        resolve_spec(entries, name) matches Some(t) ==> exists|i: int|
            0 <= i < entries.len() && (#[trigger] entries[i]).0@ == name && entries[i].1 == t
                && forall|j: int| i < j < entries.len() ==> (#[trigger] entries[j]).0@ != name,
    decreases entries.len(),
{
    if entries.len() > 0 {
        let p = entries.drop_last();
        law_resolve_latest(p, name);
        let n = entries.len() - 1;
        if entries.last().0@ == name {
            assert(entries[n].0@ == name);
        } else {
            assert forall|i: int| 0 <= i < n implies #[trigger] entries[i] == p[i] by {}
            if resolve_spec(p, name) is None {
                assert forall|i: int| 0 <= i < entries.len() implies (#[trigger] entries[i]).0@ != name by {
                    if i < n {
                        assert(entries[i] == p[i]);
                    }
                }
            } else {
                let t = resolve_spec(p, name)->0;
                let i = choose|i: int| 0 <= i < p.len() && (#[trigger] p[i]).0@ == name && p[i].1 == t
                    && forall|j: int| i < j < p.len() ==> (#[trigger] p[j]).0@ != name;
                assert(entries[i] == p[i]);
                assert forall|j: int| i < j < entries.len() implies (#[trigger] entries[j]).0@ != name by {
                    if j < n {
                        assert(entries[j] == p[j]);
                    }
                }
            }
            if forall|i: int| 0 <= i < entries.len() ==> (#[trigger] entries[i]).0@ != name {
                assert forall|i: int| 0 <= i < p.len() implies (#[trigger] p[i]).0@ != name by {
                    assert(entries[i] == p[i]);
                }
            }
        }
    }
}

/// `name` is declared in the scope at `depth`.
pub open spec fn declared_at<B>(entries: Seq<(String, B, usize)>, name: Seq<char>, depth: usize) -> bool {
    exists|i: int| 0 <= i < entries.len() && (#[trigger] entries[i]).0@ == name && entries[i].2 == depth
}

/// Scoped symbols for type checking. Entries of inner scopes follow those of
/// outer ones; each carries the depth of the scope that declared it.
pub struct SymbolTypeTable {
    entries: Vec<(String, SymbolType, usize)>,
    type_aliases: Vec<(String, Type, usize)>,
    depth: usize,
}

impl SymbolTypeTable {
    /// The declarations, outermost first.
    pub closed spec fn symbols(&self) -> Seq<(String, SymbolType, usize)> {
        self.entries@
    }

    /// The type aliases, outermost first.
    pub closed spec fn alias_entries(&self) -> Seq<(String, Type, usize)> {
        self.type_aliases@
    }

    /// How many scopes are open inside the global one.
    pub closed spec fn scope_depth(&self) -> usize {
        self.depth
    }

    /// The table's invariant: entries belong to open scopes, in order.
    pub closed spec fn wf(&self) -> bool {
        &&& forall|i: int| 0 <= i < self.entries@.len() ==> (#[trigger] self.entries@[i]).2 <= self.depth
        &&& forall|i: int, j: int| 0 <= i < j < self.entries@.len() ==> #[trigger] self.entries@[i].2 <= #[trigger] self.entries@[j].2
        &&& forall|i: int| 0 <= i < self.type_aliases@.len() ==> (#[trigger] self.type_aliases@[i]).2 <= self.depth
        &&& forall|i: int, j: int| 0 <= i < j < self.type_aliases@.len() ==> #[trigger] self.type_aliases@[i].2 <= #[trigger] self.type_aliases@[j].2
        &&& self.depth < usize::MAX
    }

    /// The global scope, empty.
    pub fn new() -> (t: SymbolTypeTable)
        ensures
            t.wf(),
            t.symbols().len() == 0,
            t.alias_entries().len() == 0,
            t.scope_depth() == 0,
    {
        SymbolTypeTable { entries: Vec::new(), type_aliases: Vec::new(), depth: 0 }
    }

    /// Declares `ident` in the current scope; a name the current scope
    /// already declares is reported as a redeclaration.
    pub fn declare_identifier(&mut self, ident: String, t: Type, span: Span, mutable: bool, errors: &mut ErrorCollector)
        -> (r: Result<(), ()>)
        requires
            old(self).wf(),
        ensures
            final(self).wf(),
            final(self).scope_depth() == old(self).scope_depth(),
            final(self).alias_entries() == old(self).alias_entries(),
            r is Err <==> declared_at(old(self).symbols(), ident@, old(self).scope_depth()),
            r is Err ==> final(self).symbols() == old(self).symbols() && final(errors).errors@.len()
                == old(errors).errors@.len() + 1 && final(errors).errors@.drop_last() == old(errors).errors@
                && exists|i: int|
                0 <= i < old(self).symbols().len() && (#[trigger] old(self).symbols()[i]).0@ == ident@
                    && old(self).symbols()[i].2 == old(self).scope_depth() && final(errors).errors@.last()
                    == (VynError::VariableRedeclaration {
                    name: ident,
                    original_span: old(self).symbols()[i].1.span,
                    redeclaration_span: span,
                }),
            r is Ok ==> final(errors).errors@ == old(errors).errors@ && final(self).symbols() == old(self).symbols().push(
                (ident, SymbolType { symbol_type: t, span, mutable, is_static: false }, old(self).scope_depth()),
            ),
            r is Ok ==> resolve_spec(final(self).symbols(), ident@) == Some(
                SymbolType { symbol_type: t, span, mutable, is_static: false },
            ),
    {
        self.declare(ident, t, span, mutable, false, errors)
    }

    /// Declares a `static` name in the current scope (immutable).
    pub fn declare_static_identifier(&mut self, ident: String, t: Type, span: Span, errors: &mut ErrorCollector)
        -> (r: Result<(), ()>)
        requires
            old(self).wf(),
        ensures
            final(self).wf(),
            final(self).scope_depth() == old(self).scope_depth(),
            final(self).alias_entries() == old(self).alias_entries(),
            r is Err <==> declared_at(old(self).symbols(), ident@, old(self).scope_depth()),
            r is Err ==> final(self).symbols() == old(self).symbols() && final(errors).errors@.len()
                == old(errors).errors@.len() + 1 && final(errors).errors@.drop_last() == old(errors).errors@,
            r is Ok ==> final(errors).errors@ == old(errors).errors@ && final(self).symbols() == old(self).symbols().push(
                (ident, SymbolType { symbol_type: t, span, mutable: false, is_static: true }, old(self).scope_depth()),
            ),
    {
        self.declare(ident, t, span, false, true, errors)
    }

    fn declare(&mut self, ident: String, t: Type, span: Span, mutable: bool, is_static: bool, errors: &mut ErrorCollector)
        -> (r: Result<(), ()>)
        requires
            old(self).wf(),
        ensures
            final(self).wf(),
            final(self).scope_depth() == old(self).scope_depth(),
            final(self).alias_entries() == old(self).alias_entries(),
            r is Err <==> declared_at(old(self).symbols(), ident@, old(self).scope_depth()),
            r is Err ==> final(self).symbols() == old(self).symbols() && final(errors).errors@.len()
                == old(errors).errors@.len() + 1 && final(errors).errors@.drop_last() == old(errors).errors@
                && exists|i: int|
                0 <= i < old(self).symbols().len() && (#[trigger] old(self).symbols()[i]).0@ == ident@
                    && old(self).symbols()[i].2 == old(self).scope_depth() && final(errors).errors@.last()
                    == (VynError::VariableRedeclaration {
                    name: ident,
                    original_span: old(self).symbols()[i].1.span,
                    redeclaration_span: span,
                }),
            r is Ok ==> final(errors).errors@ == old(errors).errors@ && final(self).symbols() == old(self).symbols().push(
                (ident, SymbolType { symbol_type: t, span, mutable, is_static }, old(self).scope_depth()),
            ),
    {
        let mut i: usize = 0;
        while i < self.entries.len()
            invariant
                0 <= i <= self.symbols().len(),
                self.symbols() == self.entries@,
                *self == *old(self),
                errors.errors@ == old(errors).errors@,
                self.wf(),
                forall|k: int| 0 <= k < i ==> !((#[trigger] self.entries@[k]).0@ == ident@ && self.entries@[k].2 == self.depth),
            decreases self.symbols().len() - i,
        {
            if self.entries[i].2 == self.depth && self.entries[i].0.eq(&ident) {
                let original_span = self.entries[i].1.span;
                let ghost e0 = errors.errors@;
                errors.add(VynError::VariableRedeclaration { name: ident, original_span, redeclaration_span: span });
                proof {
                    assert(errors.errors@.drop_last() =~= e0);
                    assert(self.entries@[i as int].0@ == ident@);
                }
                return Err(());
            }
            i = i + 1;
        }
        let ghost before = self.entries@;
        self.entries.push((ident, SymbolType { symbol_type: t, span, mutable, is_static }, self.depth));
        proof {
            assert(self.entries@.drop_last() =~= before);
            assert forall|i: int, j: int| 0 <= i < j < self.entries@.len() implies #[trigger] self.entries@[i].2 <= #[trigger] self.entries@[j].2 by {
                if j < before.len() {
                    assert(self.entries@[i] == before[i] && self.entries@[j] == before[j]);
                } else {
                    assert(self.entries@[i] == before[i]);
                }
            }
        }
        Ok(())
    }

    /// The symbol `ident` resolves to, innermost scope first; an unknown
    /// name is reported.
    pub fn resolve_identifier(&self, ident: &str, span: Span, errors: &mut ErrorCollector) -> (r: Result<&SymbolType, ()>)
        ensures
            r matches Ok(s) ==> resolve_spec(self.symbols(), ident@) == Some(*s) && final(errors).errors@ == old(errors).errors@,
            r is Err ==> resolve_spec(self.symbols(), ident@) is None && final(errors).errors@.len()
                == old(errors).errors@.len() + 1 && final(errors).errors@.drop_last() == old(errors).errors@,
            r is Err ==> fault_is(final(errors).errors@.last(), CheckFault::Undefined(ident@, span)),
    {
        match self.find(ident) {
            Some(i) => Ok(&self.entries[i].1),
            None => {
                let ghost e0 = errors.errors@;
                errors.add(VynError::UndefinedVariable { name: ident.to_string(), span });
                proof {
                    assert(errors.errors@.drop_last() =~= e0);
                }
                Err(())
            },
        }
    }

    /// The index of the entry `ident` resolves to.
    fn find(&self, ident: &str) -> (r: Option<usize>)
        ensures
            r matches Some(i) ==> i < self.symbols().len() && resolve_spec(self.symbols(), ident@) == Some(self.symbols()[i as int].1),
            r is None ==> resolve_spec(self.symbols(), ident@) is None,
    {
        let mut k: usize = self.entries.len();
        proof {
            assert(self.symbols().subrange(0, k as int) =~= self.symbols());
        }
        while k > 0
            invariant
                0 <= k <= self.symbols().len(),
                self.symbols() == self.entries@,
                resolve_spec(self.symbols(), ident@) == resolve_spec(self.symbols().subrange(0, k as int), ident@),
            decreases k,
        {
            proof {
                assert(self.symbols().subrange(0, k as int).drop_last() =~= self.symbols().subrange(0, k - 1));
            }
            if crate::tokens::str_eq(self.entries[k - 1].0.as_str(), ident) {
                return Some(k - 1);
            }
            k = k - 1;
        }
        proof {
            assert(self.symbols().subrange(0, 0) =~= Seq::<(String, SymbolType, usize)>::empty());
        }
        None
    }

    /// Records alias `name` in the current scope; a name the current scope
    /// already has is refused.
    pub fn enroll_type_alias(&mut self, name: String, an_type: Type, span: Span) -> (r: Result<(), VynError>)
        requires
            old(self).wf(),
        ensures
            final(self).wf(),
            final(self).symbols() == old(self).symbols(),
            final(self).scope_depth() == old(self).scope_depth(),
            (r is Err) == declared_at(old(self).alias_entries(), name@, old(self).scope_depth()),
            r matches Err(e) ==> e == (VynError::TypeAliasRedeclaration { name, span }) && final(self).alias_entries() == old(self).alias_entries(),
            r is Ok ==> final(self).alias_entries() == old(self).alias_entries().push((name, an_type, old(self).scope_depth())),
    {
        let mut i: usize = 0;
        while i < self.type_aliases.len()
            invariant
                0 <= i <= self.alias_entries().len(),
                self.alias_entries() == self.type_aliases@,
                *self == *old(self),
                self.wf(),
                forall|k: int| 0 <= k < i ==> !((#[trigger] self.type_aliases@[k]).0@ == name@ && self.type_aliases@[k].2 == self.depth),
            decreases self.alias_entries().len() - i,
        {
            if self.type_aliases[i].2 == self.depth && self.type_aliases[i].0.eq(&name) {
                proof {
                    assert(self.type_aliases@[i as int].0@ == name@);
                }
                return Err(VynError::TypeAliasRedeclaration { name, span });
            }
            i = i + 1;
        }
        let ghost before = self.type_aliases@;
        self.type_aliases.push((name, an_type, self.depth));
        proof {
            assert(self.type_aliases@.drop_last() =~= before);
            assert forall|i: int, j: int| 0 <= i < j < self.type_aliases@.len() implies #[trigger] self.type_aliases@[i].2 <= #[trigger] self.type_aliases@[j].2 by {
                if j < before.len() {
                    assert(self.type_aliases@[i] == before[i] && self.type_aliases@[j] == before[j]);
                } else {
                    assert(self.type_aliases@[i] == before[i]);
                }
            }
        }
        Ok(())
    }

    /// How many scopes are open inside the global one.
    pub fn depth(&self) -> (d: usize)
        ensures
            d == self.scope_depth(),
    {
        self.depth
    }

    /// Opens a scope inside the current one.
    pub fn enter_scope(&mut self)
        requires
            old(self).wf(),
            old(self).scope_depth() + 1 < usize::MAX,
        ensures
            final(self).wf(),
            final(self).symbols() == old(self).symbols(),
            final(self).alias_entries() == old(self).alias_entries(),
            final(self).scope_depth() == old(self).scope_depth() + 1,
            forall|name: Seq<char>| !declared_at(final(self).symbols(), name, final(self).scope_depth()),
            forall|name: Seq<char>| !declared_at(final(self).alias_entries(), name, final(self).scope_depth()),
    {
        self.depth = self.depth + 1;
    }

    /// Closes the current scope, dropping what it declared. The global scope
    /// cannot be closed.
    pub fn exit_scope(&mut self)
        requires
            old(self).wf(),
            old(self).scope_depth() > 0,
        ensures
            final(self).wf(),
            final(self).scope_depth() == old(self).scope_depth() - 1,
            final(self).symbols() == old(self).symbols().filter(|e: (String, SymbolType, usize)| e.2 < old(self).scope_depth()),
            forall|i: int| 0 <= i < final(self).symbols().len() ==> (#[trigger] final(self).symbols()[i]).2 < old(self).scope_depth(),
            final(self).symbols().len() <= old(self).symbols().len(),
            final(self).symbols() == old(self).symbols().subrange(0, final(self).symbols().len() as int),
            final(self).alias_entries() == old(self).alias_entries().filter(|e: (String, Type, usize)| e.2 < old(self).scope_depth()),
    {
        let d = self.depth;
        while self.entries.len() > 0 && self.entries[self.entries.len() - 1].2 == d
            invariant
                forall|i: int| 0 <= i < self.entries@.len() ==> (#[trigger] self.entries@[i]).2 <= d,
                forall|i: int, j: int| 0 <= i < j < self.entries@.len() ==> #[trigger] self.entries@[i].2 <= #[trigger] self.entries@[j].2,
                self.entries@.len() <= old(self).entries@.len(),
                self.entries@ == old(self).entries@.subrange(0, self.entries@.len() as int),
                forall|i: int| self.entries@.len() <= i < old(self).entries@.len() ==> (#[trigger] old(self).entries@[i]).2 == d,
                d == old(self).depth,
                self.depth == d,
                self.type_aliases == old(self).type_aliases,
                forall|i: int| 0 <= i < old(self).entries@.len() ==> (#[trigger] old(self).entries@[i]).2 <= d,
            decreases self.entries@.len(),
        {
            self.entries.pop();
        }
        let ghost s = self.entries@;
        proof {
            assert forall|i: int| 0 <= i < s.len() implies (#[trigger] s[i]).2 < d by {
                assert(s[i].2 <= s[s.len() - 1].2);
            }
            let o = old(self).entries@;
            lemma_filter_prefix(o, s.len() as int, d);
        }
        while self.type_aliases.len() > 0 && self.type_aliases[self.type_aliases.len() - 1].2 == d
            invariant
                forall|i: int| 0 <= i < self.type_aliases@.len() ==> (#[trigger] self.type_aliases@[i]).2 <= d,
                forall|i: int, j: int| 0 <= i < j < self.type_aliases@.len() ==> #[trigger] self.type_aliases@[i].2 <= #[trigger] self.type_aliases@[j].2,
                self.depth == d,
                d > 0,
                self.entries@ == s,
                self.type_aliases@.len() <= old(self).type_aliases@.len(),
                self.type_aliases@ == old(self).type_aliases@.subrange(0, self.type_aliases@.len() as int),
                forall|i: int| self.type_aliases@.len() <= i < old(self).type_aliases@.len() ==> (#[trigger] old(self).type_aliases@[i]).2 == d,
                forall|i: int| 0 <= i < old(self).type_aliases@.len() ==> (#[trigger] old(self).type_aliases@[i]).2 <= d,
                d == old(self).depth,
            decreases self.type_aliases@.len(),
        {
            self.type_aliases.pop();
        }
        proof {
            let t = self.type_aliases@;
            assert forall|i: int| 0 <= i < t.len() implies (#[trigger] t[i]).2 < d by {
                assert(t[i].2 <= t[t.len() - 1].2);
            }
            lemma_filter_prefix(old(self).type_aliases@, t.len() as int, d);
        }
        self.depth = d - 1;
    }
}

/// Keeping the entries below depth `d` of a list whose tail from `n` is at
/// depth `d` and whose head is below it keeps exactly the head.
pub proof fn lemma_filter_prefix<A, B>(o: Seq<(A, B, usize)>, n: int, d: usize)
    requires
        0 <= n <= o.len(),
        forall|i: int| 0 <= i < n ==> (#[trigger] o[i]).2 < d,
        forall|i: int| n <= i < o.len() ==> (#[trigger] o[i]).2 == d,
    ensures
        o.filter(|e: (A, B, usize)| e.2 < d) == o.subrange(0, n),
    decreases o.len(),
{
    let f = |e: (A, B, usize)| e.2 < d;
    if o.len() == 0 {
        assert(o.filter(f) =~= Seq::empty());
    } else if n == o.len() {
        let p = o.drop_last();
        lemma_filter_prefix(p, n - 1, d);
        reveal(Seq::filter);
        assert(o.filter(f) == p.filter(f).push(o.last()));
        assert(o.subrange(0, n) =~= o.subrange(0, n - 1).push(o.last()));
        assert(p.subrange(0, n - 1) =~= o.subrange(0, n - 1));
    } else {
        let p = o.drop_last();
        lemma_filter_prefix(p, n, d);
        reveal(Seq::filter);
        assert(o.filter(f) == p.filter(f));
        assert(p.subrange(0, n) =~= o.subrange(0, n));
    }
}


/// Closing a scope gives back the table from before it was opened: if a
/// table is entered one scope deeper, only declarations and type aliases at
/// that depth are added, and the scope is then closed, the symbols, the type
/// aliases and the depth are those from before.
pub proof fn law_scope_round_trip(before: SymbolTypeTable, inner: SymbolTypeTable, after: SymbolTypeTable)
    requires
        before.wf(),
        inner.scope_depth() == before.scope_depth() + 1,
        before.symbols().len() <= inner.symbols().len(),
        inner.symbols().subrange(0, before.symbols().len() as int) == before.symbols(),
        forall|i: int|
            before.symbols().len() <= i < inner.symbols().len() ==> (#[trigger] inner.symbols()[i]).2
                == inner.scope_depth(),
        before.alias_entries().len() <= inner.alias_entries().len(),
        inner.alias_entries().subrange(0, before.alias_entries().len() as int) == before.alias_entries(),
        forall|i: int|
            before.alias_entries().len() <= i < inner.alias_entries().len() ==> (#[trigger] inner.alias_entries()[i]).2
                == inner.scope_depth(),
        after.scope_depth() == inner.scope_depth() - 1,
        after.symbols() == inner.symbols().filter(|e: (String, SymbolType, usize)| e.2 < inner.scope_depth()),
        after.alias_entries() == inner.alias_entries().filter(|e: (String, Type, usize)| e.2 < inner.scope_depth()),
    ensures
        after.symbols() == before.symbols(),
        after.alias_entries() == before.alias_entries(),
        after.scope_depth() == before.scope_depth(),
{
    let o = inner.symbols();
    let n = before.symbols().len() as int;
    assert forall|i: int| 0 <= i < n implies (#[trigger] o[i]).2 < inner.scope_depth() by {
        assert(o[i] == before.symbols()[i]);
    }
    lemma_filter_prefix(o, n, inner.scope_depth());
    let a = inner.alias_entries();
    let m = before.alias_entries().len() as int;
    assert forall|i: int| 0 <= i < m implies (#[trigger] a[i]).2 < inner.scope_depth() by {
        assert(a[i] == before.alias_entries()[i]);
    }
    lemma_filter_prefix(a, m, inner.scope_depth());
}

/// The size an array annotation's size expression gives: a non-negative
/// integer literal, or a static integer recorded under the name; `None`
/// (an error) otherwise.
pub open spec fn array_size_spec(e: Expr, statics: Seq<(String, StaticValue, Span)>) -> Option<usize> {
    match e {
        Expr::IntegerLiteral(n) => if n >= 0 { Some(n as usize) } else { None },
        Expr::Identifier(name) => match lookup_static(statics, name@) {
            Some(StaticValue::Int(n)) => if n >= 0 { Some(n as usize) } else { None },
            _ => None,
        },
        _ => None,
    }
}

/// The type an annotation stands for; an array whose size is not known
/// gets size 0.
pub open spec fn annotation_type(ta: TypeAnnotation, statics: Seq<(String, StaticValue, Span)>) -> Type
    decreases ta,
{
    match ta {
        TypeAnnotation::StringType => Type::String,
        TypeAnnotation::IntegerType => Type::Integer,
        TypeAnnotation::FloatType => Type::Float,
        TypeAnnotation::BooleanType => Type::Bool,
        TypeAnnotation::ArrayType(t, size) => Type::Array(
            Box::new(annotation_type(*t, statics)),
            match array_size_spec(size.node, statics) {
                Some(n) => n,
                None => 0,
            },
        ),
        TypeAnnotation::SequenceType(t) => Type::Sequence(Box::new(annotation_type(*t, statics))),
    }
}

/// An annotation whose array sizes are all known: evaluating it reports
/// nothing.
pub open spec fn annotation_clean(ta: TypeAnnotation, statics: Seq<(String, StaticValue, Span)>) -> bool
    decreases ta,
{
    match ta {
        TypeAnnotation::ArrayType(t, size) => annotation_clean(*t, statics) && array_size_spec(size.node, statics) is Some,
        TypeAnnotation::SequenceType(t) => annotation_clean(*t, statics),
        _ => true,
    }
}

/// A type that has a default value: not nil and not an identifier, at any depth.
pub open spec fn has_default(t: Type) -> bool
    decreases t,
{
    match t {
        Type::Nil | Type::Identifier => false,
        Type::Array(inner, _) => has_default(*inner),
        _ => true,
    }
}

impl Type {
    /// The type an annotation stands for. A bad array size is reported
    /// (negative, or not a static integer) and taken as 0.
    pub fn from_anotated_type(an_type: &TypeAnnotation, static_eval: &StaticEvaluator, errors: &mut ErrorCollector) -> (t: Type)
        ensures
            t == annotation_type(*an_type, static_eval.recorded()),
            final(errors).errors@.len() >= old(errors).errors@.len(),
            (final(errors).errors@.len() == old(errors).errors@.len()) == annotation_clean(*an_type, static_eval.recorded()),
            forall|i: int| 0 <= i < old(errors).errors@.len() ==> #[trigger] final(errors).errors@[i] == old(errors).errors@[i],
        decreases an_type,
    {
        match an_type {
            TypeAnnotation::StringType => Type::String,
            TypeAnnotation::IntegerType => Type::Integer,
            TypeAnnotation::FloatType => Type::Float,
            TypeAnnotation::BooleanType => Type::Bool,
            TypeAnnotation::ArrayType(ta, size_expr) => {
                let t = Type::from_anotated_type(ta, static_eval, errors);
                let ghost mid = errors.errors@;
                let size = match Type::evaluate_array_size(size_expr, static_eval, errors) {
                    Some(n) => n,
                    None => 0,
                };
                proof {
                    assert forall|i: int| 0 <= i < mid.len() implies #[trigger] errors.errors@[i] == mid[i] by {
                        if errors.errors@.len() > mid.len() {
                            assert(errors.errors@.drop_last()[i] == errors.errors@[i]);
                        }
                    }
                }
                Type::Array(Box::new(t), size)
            },
            TypeAnnotation::SequenceType(ta) => {
                let t = Type::from_anotated_type(ta, static_eval, errors);
                Type::Sequence(Box::new(t))
            },
        }
    }

    /// The value a declaration without one starts with: empty string, 0,
    /// 0.0, false, an array of defaults, or an empty sequence.
    pub fn get_type_default_value(t: &Type) -> (e: Expression)
        requires
            has_default(*t),
        ensures
            e.span == Span::zero(),
            *t == Type::Integer ==> e.node == Expr::IntegerLiteral(0),
            *t == Type::Bool ==> e.node == Expr::BooleanLiteral(false),
            *t is String ==> e.node is StringLiteral && e.node->StringLiteral_0@ == Seq::<char>::empty(),
            *t is Float ==> e.node is FloatLiteral && e.node->FloatLiteral_0@ == "0.0"@,
            *t matches Type::Array(_, n) ==> e.node is ArrayLiteral && e.node->ArrayLiteral_elements@.len() == n,
            *t is Sequence ==> e.node is ArrayLiteral && e.node->ArrayLiteral_elements@.len() == 0,
        decreases t,
    {
        let node = match t {
            Type::String => Expr::StringLiteral(String::new()),
            Type::Integer => Expr::IntegerLiteral(0),
            Type::Float => {
                let z = "0.0".to_string();
                proof {
                    reveal_strlit("0.0");
                }
                Expr::FloatLiteral(z)
            },
            Type::Bool => Expr::BooleanLiteral(false),
            Type::Array(ta, size) => {
                let mut elements: Vec<Box<Expression>> = Vec::new();
                let mut k: usize = 0;
                while k < *size
                    invariant
                        0 <= k <= *size,
                        elements@.len() == k,
                        has_default(**ta),
                        *t is Array,
                        (*t)->Array_0 == *ta,
                    decreases *size - k,
                {
                    proof {
                        assert(decreases_to!(*t => (*t)->Array_0));
                    }
                    elements.push(Box::new(Type::get_type_default_value(ta)));
                    k = k + 1;
                }
                Expr::ArrayLiteral { elements }
            },
            _ => Expr::ArrayLiteral { elements: Vec::new() },
        };
        Spanned { node, span: Span::default_span() }
    }

    /// The size an array annotation's size expression gives.
    fn evaluate_array_size(expr: &Expression, static_eval: &StaticEvaluator, errors: &mut ErrorCollector) -> (r: Option<usize>)
        ensures
            r == array_size_spec(expr.node, static_eval.recorded()),
            r is Some ==> final(errors).errors@ == old(errors).errors@,
            r is None ==> final(errors).errors@.len() == old(errors).errors@.len() + 1
                && final(errors).errors@.drop_last() == old(errors).errors@,
    {
        let ghost e0 = errors.errors@;
        let r = match &expr.node {
            Expr::IntegerLiteral(n) => {
                if *n >= 0 {
                    Some(*n as usize)
                } else {
                    errors.add(VynError::NegativeArraySize { size: *n, span: expr.span });
                    None
                }
            },
            Expr::Identifier(name) => {
                match static_eval.get_static_int(name.as_str()) {
                    Some(n) => {
                        if n >= 0 {
                            Some(n as usize)
                        } else {
                            errors.add(VynError::NegativeArraySize { size: n, span: expr.span });
                            None
                        }
                    },
                    None => {
                        errors.add(VynError::ArraySizeNotStatic { span: expr.span });
                        None
                    },
                }
            },
            _ => {
                errors.add(VynError::ArraySizeNotStatic { span: expr.span });
                None
            },
        };
        proof {
            if r is None {
                assert(errors.errors@.drop_last() =~= e0);
            }
        }
        r
    }
}


/// Binary operators whose operands must be numbers of one type.
pub open spec fn is_arith_op(tt: TokenType) -> bool {
    tt == TokenType::Plus || tt == TokenType::Minus || tt == TokenType::Asterisk || tt == TokenType::Slash
        || tt == TokenType::Caret
}

/// Binary operators that compare two values of one type.
pub open spec fn is_compare_op(tt: TokenType) -> bool {
    tt == TokenType::Equal || tt == TokenType::NotEqual || tt == TokenType::GreaterThan
        || tt == TokenType::GreaterThanEqual || tt == TokenType::LessThan || tt == TokenType::LessThanEqual
}

/// The type of `left op right` from its operand types, or `None` when the
/// operator does not apply to them.
pub open spec fn binary_type(op: TokenType, l: Type, r: Type) -> Option<Type> {
    if is_arith_op(op) {
        if l == r && (l == Type::Integer || l == Type::Float) { Some(l) } else { None }
    } else if is_compare_op(op) {
        if l == r { Some(Type::Bool) } else { None }
    } else if op == TokenType::And || op == TokenType::Or {
        if l == Type::Bool && r == Type::Bool { Some(Type::Bool) } else { None }
    } else {
        None
    }
}

/// The type of `op operand` from the operand's type, or `None`.
pub open spec fn unary_type(op: TokenType, t: Type) -> Option<Type> {
    if op == TokenType::Minus || op == TokenType::Plus {
        if t == Type::Integer || t == Type::Float { Some(t) } else { None }
    } else if op == TokenType::Bang {
        if t == Type::Bool { Some(Type::Bool) } else { None }
    } else {
        None
    }
}

/// The type of expression `e` under the declarations `syms`, where the
/// context expects `expected` (array literals take their type from it), or
/// `None` when checking it reports an error.
pub open spec fn expr_type(syms: Seq<(String, SymbolType, usize)>, e: Expr, expected: Option<Type>) -> Option<Type>
    decreases e, 1int,
{
    match e {
        Expr::IntegerLiteral(_) => Some(Type::Integer),
        Expr::FloatLiteral(_) => Some(Type::Float),
        Expr::BooleanLiteral(_) => Some(Type::Bool),
        Expr::StringLiteral(_) => Some(Type::String),
        Expr::NilLiteral => Some(Type::Nil),
        Expr::ArrayLiteral { elements } => {
            let es = elements@;
            if es.len() == 0 && expected is None {
                None
            } else {
                let exp = match expected {
                    Some(t) => Some(t),
                    None => match expr_type(syms, es[0].node, None) {
                        Some(t) => Some(Type::Sequence(Box::new(t))),
                        None => None,
                    },
                };
                match exp {
                    Some(Type::Array(at, size)) => if es.len() != size {
                        None
                    } else if elements_have(syms, es, es.len(), *at) {
                        Some(Type::Array(at, size))
                    } else {
                        None
                    },
                    Some(Type::Sequence(st)) => if es.len() == 0 || elements_have(syms, es, es.len(), *st) {
                        Some(Type::Sequence(st))
                    } else {
                        None
                    },
                    _ => None,
                }
            }
        },
        Expr::Identifier(name) => match resolve_spec(syms, name@) {
            Some(sym) => Some(sym.symbol_type),
            None => None,
        },
        Expr::Unary { operator, right } => match expr_type(syms, right.node, None) {
            Some(o) => unary_type(spec_token_type(operator), o),
            None => None,
        },
        Expr::BinaryOperation { left, operator, right } => match expr_type(syms, left.node, None) {
            Some(l) => match expr_type(syms, right.node, None) {
                Some(r) => binary_type(spec_token_type(operator), l, r),
                None => None,
            },
            None => None,
        },
        Expr::Index { target, property } => match expr_type(syms, target.node, None) {
            Some(tt) => match expr_type(syms, property.node, None) {
                Some(pt) => if pt != Type::Integer {
                    None
                } else {
                    match tt {
                        Type::Array(et, _) => Some(*et),
                        Type::Sequence(et) => Some(*et),
                        _ => None,
                    }
                },
                None => None,
            },
            None => None,
        },
        Expr::IndexAssignment { target, property, new_value } => {
            if !index_target_ok(syms, target.node) {
                None
            } else {
                match expr_type(syms, target.node, None) {
                    Some(tt) => match expr_type(syms, property.node, None) {
                        Some(pt) => if pt != Type::Integer {
                            None
                        } else {
                            match tt {
                                Type::Array(et, _) => assigned_type(syms, new_value.node, *et),
                                Type::Sequence(et) => assigned_type(syms, new_value.node, *et),
                                _ => None,
                            }
                        },
                        None => None,
                    },
                    None => None,
                }
            }
        },
        Expr::VariableAssignment { identifier, new_value } => match identifier.node {
            Expr::Identifier(name) => match resolve_spec(syms, name@) {
                Some(sym) => if sym.is_static || !sym.mutable {
                    None
                } else {
                    assigned_type(syms, new_value.node, sym.symbol_type)
                },
                None => None,
            },
            _ => None,
        },
    }
}

/// The error checking an expression records, up to the views of its text
/// and lists.
pub enum CheckFault {
    /// No error.
    NoFault,
    /// This error exactly.
    Exact(VynError),
    /// `TypeMismatch` with these expected types, the type found, and the span.
    Mismatch(Seq<Type>, Type, Span),
    /// `UndefinedVariable` of this name at the span.
    Undefined(Seq<char>, Span),
    /// `ImmutableMutation` of this name: declaration span, mutation span.
    Immutable(Seq<char>, Span, Span),
    /// `StaticMutation` of this name: mutator span, declaration span.
    StaticMut(Seq<char>, Span, Span),
    /// `TypeInfer` of an expression with this view, at the span.
    Infer(ExprV, Span),
}

/// When the first `k` elements have type `t` and element `k` does not, the
/// error of the first `n` (past `k`) is element `k`'s.
proof fn lemma_elems_fault(syms: Seq<(String, SymbolType, usize)>, es: Seq<Box<Expression>>, n: nat, t: Type, k: nat)
    requires
        elements_have(syms, es, k, t),
        k < n <= es.len(),
        expr_type(syms, es[k as int].node, Some(t)) != Some(t),
    ensures
        elems_fault(syms, es, n, t) == match expr_type(syms, es[k as int].node, Some(t)) {
            None => expr_fault(syms, es[k as int].node, es[k as int].span, Some(t)),
            Some(u) => CheckFault::Mismatch(seq![t], u, es[k as int].span),
        },
        !elements_have(syms, es, n, t),
    decreases n,
{
    if n > k + 1 {
        lemma_elems_fault(syms, es, (n - 1) as nat, t, k);
    }
}

/// `new` is `old` with one more error, the one `f` describes.
pub open spec fn one_more(old: Seq<VynError>, new: Seq<VynError>, f: CheckFault) -> bool {
    &&& new.len() == old.len() + 1
    &&& new.drop_last() == old
    &&& fault_is(new.last(), f)
}

/// `e` is the error `f` describes.
pub open spec fn fault_is(e: VynError, f: CheckFault) -> bool {
    match f {
        CheckFault::NoFault => false,
        CheckFault::Exact(x) => e == x,
        CheckFault::Mismatch(ts, t, sp) => e matches VynError::TypeMismatch { expected, found, span }
            && expected@ == ts && found == t && span == sp,
        CheckFault::Undefined(n, sp) => e matches VynError::UndefinedVariable { name, span } && name@ == n && span == sp,
        CheckFault::Immutable(n, sp, msp) => e matches VynError::ImmutableMutation { identifier, span, mutation_span }
            && identifier@ == n && span == sp && mutation_span == msp,
        CheckFault::StaticMut(n, msp, sp) => e matches VynError::StaticMutation { identifier, mutator_span, span }
            && identifier@ == n && mutator_span == msp && span == sp,
        CheckFault::Infer(v, sp) => e matches VynError::TypeInfer { expr, span } && node_view(expr) == v && span == sp,
    }
}

/// The error of the first of the first `n` elements that does not have type
/// `t`.
pub open spec fn elems_fault(syms: Seq<(String, SymbolType, usize)>, es: Seq<Box<Expression>>, n: nat, t: Type) -> CheckFault
    decreases es, n,
{
    if n == 0 || n > es.len() {
        CheckFault::NoFault
    } else if !elements_have(syms, es, (n - 1) as nat, t) {
        elems_fault(syms, es, (n - 1) as nat, t)
    } else {
        match expr_type(syms, es[n - 1].node, Some(t)) {
            None => expr_fault(syms, es[n - 1].node, es[n - 1].span, Some(t)),
            Some(u) => CheckFault::Mismatch(seq![t], u, es[n - 1].span),
        }
    }
}

/// The error checking expression `e` (at `span`) records when it fails: the
/// first failing part's error, checked in the order the checker goes.
pub open spec fn expr_fault(syms: Seq<(String, SymbolType, usize)>, e: Expr, span: Span, expected: Option<Type>) -> CheckFault
    decreases e, 1int,
{
    match e {
        Expr::ArrayLiteral { elements } => {
            let es = elements@;
            if es.len() == 0 && expected is None {
                CheckFault::Infer(node_view(e), span)
            } else if expected is None && expr_type(syms, es[0].node, None) is None {
                expr_fault(syms, es[0].node, es[0].span, None)
            } else {
                let exp = match expected {
                    Some(t) => t,
                    None => Type::Sequence(Box::new(expr_type(syms, es[0].node, None)->Some_0)),
                };
                match exp {
                    Type::Array(at, size) => if es.len() != size {
                        CheckFault::Exact(VynError::ArrayLengthMismatch { expected: size, got: es.len() as usize, span })
                    } else {
                        elems_fault(syms, es, es.len(), *at)
                    },
                    Type::Sequence(st) => elems_fault(syms, es, es.len(), *st),
                    other => CheckFault::Mismatch(seq![other], other, span),
                }
            }
        },
        Expr::Identifier(name) => CheckFault::Undefined(name@, span),
        Expr::Unary { operator, right } => match expr_type(syms, right.node, None) {
            None => expr_fault(syms, right.node, right.span, None),
            Some(t) => {
                let tt = spec_token_type(operator);
                if tt == TokenType::Minus || tt == TokenType::Plus {
                    CheckFault::Mismatch(seq![Type::Integer, Type::Float], t, span)
                } else if tt == TokenType::Bang {
                    CheckFault::Mismatch(seq![Type::Bool], t, span)
                } else {
                    CheckFault::Exact(VynError::InvalidUnaryOperator { operator, span })
                }
            },
        },
        Expr::BinaryOperation { left, operator, right } => match expr_type(syms, left.node, None) {
            None => expr_fault(syms, left.node, left.span, None),
            Some(l) => match expr_type(syms, right.node, None) {
                None => expr_fault(syms, right.node, right.span, None),
                Some(r) => {
                    let tt = spec_token_type(operator);
                    if is_arith_op(tt) {
                        if l != r {
                            CheckFault::Mismatch(seq![l], r, span)
                        } else {
                            CheckFault::Mismatch(seq![Type::Integer, Type::Float], l, span)
                        }
                    } else if is_compare_op(tt) {
                        CheckFault::Mismatch(seq![l], r, span)
                    } else if tt == TokenType::And || tt == TokenType::Or {
                        CheckFault::Mismatch(seq![Type::Bool], if l != Type::Bool { l } else { r }, span)
                    } else {
                        CheckFault::Exact(VynError::InvalidBinaryOperator { operator, span })
                    }
                },
            },
        },
        Expr::Index { target, property } => match expr_type(syms, target.node, None) {
            None => expr_fault(syms, target.node, target.span, None),
            Some(tt) => match expr_type(syms, property.node, None) {
                None => expr_fault(syms, property.node, property.span, None),
                Some(pt) => if pt != Type::Integer {
                    CheckFault::Mismatch(seq![Type::Integer], pt, property.span)
                } else {
                    CheckFault::Exact(VynError::InvalidIndexing { target: tt, span })
                },
            },
        },
        Expr::IndexAssignment { target, property, new_value } => {
            let name_fault = match target.node {
                Expr::Identifier(name) => match resolve_spec(syms, name@) {
                    None => CheckFault::Undefined(name@, target.span),
                    Some(sym) => if !sym.mutable {
                        CheckFault::Immutable(name@, sym.span, span)
                    } else if sym.is_static {
                        CheckFault::StaticMut(name@, span, sym.span)
                    } else {
                        CheckFault::NoFault
                    },
                },
                _ => CheckFault::NoFault,
            };
            if !(name_fault is NoFault) {
                name_fault
            } else {
                match expr_type(syms, target.node, None) {
                    None => expr_fault(syms, target.node, target.span, None),
                    Some(tt) => match expr_type(syms, property.node, None) {
                        None => expr_fault(syms, property.node, property.span, None),
                        Some(pt) => if pt != Type::Integer {
                            CheckFault::Mismatch(seq![Type::Integer], pt, property.span)
                        } else {
                            match tt {
                                Type::Array(et, _) => match expr_type(syms, new_value.node, Some(*et)) {
                                    None => expr_fault(syms, new_value.node, new_value.span, Some(*et)),
                                    Some(u) => CheckFault::Mismatch(seq![*et], u, new_value.span),
                                },
                                Type::Sequence(et) => match expr_type(syms, new_value.node, Some(*et)) {
                                    None => expr_fault(syms, new_value.node, new_value.span, Some(*et)),
                                    Some(u) => CheckFault::Mismatch(seq![*et], u, new_value.span),
                                },
                                other => CheckFault::Exact(VynError::InvalidIndexing { target: other, span }),
                            }
                        },
                    },
                }
            }
        },
        Expr::VariableAssignment { identifier, new_value } => match identifier.node {
            Expr::Identifier(name) => match resolve_spec(syms, name@) {
                None => CheckFault::Undefined(name@, span),
                Some(sym) => if sym.is_static {
                    CheckFault::StaticMut(name@, span, sym.span)
                } else if !sym.mutable {
                    CheckFault::Immutable(name@, sym.span, span)
                } else {
                    match expr_type(syms, new_value.node, Some(sym.symbol_type)) {
                        None => expr_fault(syms, new_value.node, new_value.span, Some(sym.symbol_type)),
                        Some(u) => CheckFault::Mismatch(seq![sym.symbol_type], u, new_value.span),
                    }
                },
            },
            _ => CheckFault::Exact(VynError::LeftHandAssignment { span }),
        },
        _ => CheckFault::NoFault,
    }
}

/// An indexed assignment may write through `target`: a name must be declared
/// mutable and not static.
pub open spec fn index_target_ok(syms: Seq<(String, SymbolType, usize)>, target: Expr) -> bool {
    match target {
        Expr::Identifier(name) => match resolve_spec(syms, name@) {
            Some(sym) => sym.mutable && !sym.is_static,
            None => false,
        },
        _ => true,
    }
}

/// `t` when `e`, checked where a `t` is expected, has type `t`; else `None`.
pub open spec fn assigned_type(syms: Seq<(String, SymbolType, usize)>, e: Expr, t: Type) -> Option<Type>
    decreases e, 2int,
{
    if expr_type(syms, e, Some(t)) == Some(t) {
        Some(t)
    } else {
        None
    }
}

/// The first `n` elements each have type `t` where a `t` is expected.
pub open spec fn elements_have(syms: Seq<(String, SymbolType, usize)>, es: Seq<Box<Expression>>, n: nat, t: Type) -> bool
    decreases es, n,
{
    if n == 0 || n > es.len() {
        true
    } else {
        elements_have(syms, es, (n - 1) as nat, t) && expr_type(syms, es[n - 1].node, Some(t)) == Some(t)
    }
}

/// Every element among the first `n` that `elements_have` covers has the type.
proof fn lemma_elements_have(syms: Seq<(String, SymbolType, usize)>, es: Seq<Box<Expression>>, n: nat, t: Type, j: int)
    requires
        elements_have(syms, es, n, t),
        0 <= j < n <= es.len(),
    ensures
        expr_type(syms, es[j].node, Some(t)) == Some(t),
    decreases n,
{
    if j < n - 1 {
        lemma_elements_have(syms, es, (n - 1) as nat, t, j);
    }
}

/// `after` is `before` with declarations at depth `d` added at the end.
pub open spec fn extends_at<A, B>(before: Seq<(A, B, usize)>, after: Seq<(A, B, usize)>, d: usize) -> bool {
    &&& before.len() <= after.len()
    &&& after.subrange(0, before.len() as int) == before
    &&& forall|i: int| before.len() <= i < after.len() ==> (#[trigger] after[i]).2 == d
}

proof fn lemma_extends_trans<A, B>(a: Seq<(A, B, usize)>, b: Seq<(A, B, usize)>, c: Seq<(A, B, usize)>, d: usize)
    requires
        extends_at(a, b, d),
        extends_at(b, c, d),
    ensures
        extends_at(a, c, d),
{
    assert(c.subrange(0, a.len() as int) =~= b.subrange(0, a.len() as int)) by {
        assert forall|i: int| 0 <= i < a.len() implies c[i] == b[i] by {
            assert(c.subrange(0, b.len() as int)[i] == c[i]);
        }
    }
    assert forall|i: int| a.len() <= i < c.len() implies (#[trigger] c[i]).2 == d by {
        if i < b.len() {
            assert(c.subrange(0, b.len() as int)[i] == c[i]);
        }
    }
}

proof fn lemma_extends_push<A, B>(a: Seq<(A, B, usize)>, e: (A, B, usize), d: usize)
    requires
        e.2 == d,
    ensures
        extends_at(a, a.push(e), d),
{
    assert(a.push(e).subrange(0, a.len() as int) =~= a);
}

proof fn lemma_extends_refl<A, B>(a: Seq<(A, B, usize)>, d: usize)
    ensures
        extends_at(a, a, d),
{
    assert(a.subrange(0, a.len() as int) =~= a);
}

/// The loop nesting inside one more loop (it stays at the limit).
pub open spec fn deeper(loops: usize) -> usize {
    if loops < usize::MAX {
        (loops + 1) as usize
    } else {
        loops
    }
}

/// What checking statement `node` (at `span`) does, from declarations
/// `syms` and aliases `als` at scope depth `d`, inside `loops` loops, with
/// the statics `statics`: the declarations and aliases it leaves, whether
/// the check passed, and whether it recorded no error. An annotation with a
/// bad array size records one even where the statement passes; the
/// statements of a scope are all checked, and the scope passes, whatever
/// they record.
pub open spec fn stmt_eval(
    syms: Seq<(String, SymbolType, usize)>,
    als: Seq<(String, Type, usize)>,
    d: usize,
    loops: usize,
    statics: Seq<(String, StaticValue, Span)>,
    node: Stmt,
    span: Span,
) -> (Seq<(String, SymbolType, usize)>, Seq<(String, Type, usize)>, bool, bool)
    decreases node, 1int, 0int,
{
    let fail = (syms, als, false, false);
    match node {
        Stmt::Expression { expression } => {
            let ok = expr_type(syms, expression.node, None) is Some;
            (syms, als, ok, ok)
        },
        Stmt::StdoutLog { log_value } => {
            let ok = expr_type(syms, log_value.node, None) is Some;
            (syms, als, ok, ok)
        },
        Stmt::Block { .. } => fail,
        Stmt::Break | Stmt::Continue => (syms, als, loops > 0, loops > 0),
        Stmt::VariableDeclaration { identifier, value, annotated_type, mutable } => {
            let t = annotation_type(annotated_type, statics);
            match identifier.node {
                Expr::Identifier(n) => if declared_at(syms, n@, d) {
                    fail
                } else {
                    let after = syms.push((n, SymbolType { symbol_type: t, span, mutable, is_static: false }, d));
                    let ok = match value {
                        Some(v) => expr_type(after, v.node, Some(t)) == Some(t),
                        None => true,
                    };
                    (after, als, ok, ok && annotation_clean(annotated_type, statics))
                },
                _ => fail,
            }
        },
        Stmt::StaticVariableDeclaration { identifier, value, annotated_type } => {
            let t = annotation_type(annotated_type, statics);
            let vt = expr_type(syms, value.node, Some(t));
            match identifier.node {
                Expr::Identifier(n) => if vt is None || declared_at(syms, n@, d) {
                    fail
                } else {
                    let after = syms.push((n, SymbolType { symbol_type: t, span, mutable: false, is_static: true }, d));
                    let ok = vt == Some(t);
                    (after, als, ok, ok && annotation_clean(annotated_type, statics))
                },
                _ => fail,
            }
        },
        Stmt::TypeAliasDeclaration { identifier, value } => match identifier.node {
            Expr::Identifier(n) => if declared_at(als, n@, d) {
                fail
            } else {
                (syms, als.push((n, annotation_type(value, statics), d)), true, annotation_clean(value, statics))
            },
            _ => fail,
        },
        Stmt::WhenLoop { condition, body } => if expr_type(syms, condition.node, Some(Type::Bool)) != Some(Type::Bool) {
            fail
        } else {
            stmt_eval(syms, als, d, deeper(loops), statics, body.node, body.span)
        },
        Stmt::Loop { body } => stmt_eval(syms, als, d, deeper(loops), statics, body.node, body.span),
        Stmt::IndexLoop { iterator, range, body } => match iterator.node {
            Expr::Identifier(n) => if expr_type(syms, range.node, Some(Type::Integer)) != Some(Type::Integer) || d
                >= usize::MAX - 2 {
                fail
            } else {
                let inner = syms.push(
                    (n, SymbolType { symbol_type: Type::Integer, span: iterator.span, mutable: false, is_static: false }, (d + 1) as usize),
                );
                let r = stmt_eval(inner, als, (d + 1) as usize, deeper(loops), statics, body.node, body.span);
                (syms, als, r.2, r.3)
            },
            _ => fail,
        },
        Stmt::Scope { statements } => if d >= usize::MAX - 2 {
            fail
        } else {
            proof {
                assert(decreases_to!(node => node->Scope_statements));
                assert(decreases_to!(node->Scope_statements => node->Scope_statements@));
            }
            (syms, als, true, stmts_eval(syms, als, (d + 1) as usize, loops, statics, statements@, 0))
        },
        Stmt::IfDeclaration { condition, consequence, alternate } => if expr_type(syms, condition.node, None) != Some(
            Type::Bool,
        ) {
            fail
        } else {
            let r1 = stmt_eval(syms, als, d, loops, statics, consequence.node, consequence.span);
            if !r1.2 {
                r1
            } else {
                match *alternate {
                    None => r1,
                    Some(alt) => {
                        let r2 = stmt_eval(r1.0, r1.1, d, loops, statics, alt.node, alt.span);
                        (r2.0, r2.1, r2.2, r1.3 && r2.3)
                    },
                }
            }
        },
    }
}

/// Whether checking `stmts` from position `k` on, in order, from
/// declarations `syms` and aliases `als` (each statement starts from what
/// the previous one left) records no error.
pub open spec fn stmts_eval(
    syms: Seq<(String, SymbolType, usize)>,
    als: Seq<(String, Type, usize)>,
    d: usize,
    loops: usize,
    statics: Seq<(String, StaticValue, Span)>,
    stmts: Seq<Statement>,
    k: int,
) -> bool
    decreases stmts, 0int, stmts.len() - k,
{
    if 0 <= k < stmts.len() {
        proof {
            assert(decreases_to!(stmts => stmts[k]));
            assert(decreases_to!(stmts[k] => stmts[k].node));
        }
        let r = stmt_eval(syms, als, d, loops, statics, stmts[k].node, stmts[k].span);
        r.3 && stmts_eval(r.0, r.1, d, loops, statics, stmts, k + 1)
    } else {
        true
    }
}

/// Checks the types of a program against the statics evaluated before.
pub struct TypeChecker<'a> {
    symbol_type_table: SymbolTypeTable,
    errors: ErrorCollector,
    static_eval: &'a StaticEvaluator,
    loop_depth: usize,
}

impl<'a> TypeChecker<'a> {
    /// The symbols in scope.
    pub closed spec fn table(&self) -> &SymbolTypeTable {
        &self.symbol_type_table
    }

    /// The errors recorded so far.
    pub closed spec fn errs(&self) -> Seq<VynError> {
        self.errors.errors@
    }

    /// How many loops enclose the statement being checked.
    pub closed spec fn loops(&self) -> usize {
        self.loop_depth
    }

    /// The statics known to the checker.
    pub closed spec fn statics(&self) -> Seq<(String, StaticValue, Span)> {
        self.static_eval.recorded()
    }

    /// The checker's invariant.
    pub closed spec fn wf(&self) -> bool {
        &&& self.symbol_type_table.wf()
    }

    /// `self` has the scopes, loop nesting and statics of `other`.
    pub closed spec fn same_context(&self, other: Self) -> bool {
        &&& self.symbol_type_table.scope_depth() == other.symbol_type_table.scope_depth()
        &&& self.loop_depth == other.loop_depth
        &&& self.static_eval == other.static_eval
    }

    /// Two checkers in the same context have the same scope depth, loop
    /// nesting and statics.
    pub proof fn lemma_same_context(&self, other: Self)
        requires
            self.same_context(other),
        ensures
            self.table().scope_depth() == other.table().scope_depth(),
            self.loops() == other.loops(),
            self.statics() == other.statics(),
    {
    }

    /// A checker with an empty global scope.
    pub fn new(static_eval: &'a StaticEvaluator) -> (c: TypeChecker<'a>)
        ensures
            c.wf(),
            c.errs().len() == 0,
            c.loops() == 0,
            c.table().symbols().len() == 0,
            c.table().alias_entries().len() == 0,
            c.table().scope_depth() == 0,
            c.statics() == static_eval.recorded(),
    {
        TypeChecker { symbol_type_table: SymbolTypeTable::new(), errors: ErrorCollector::new(), static_eval, loop_depth: 0 }
    }

    /// The symbols the checker ended with.
    pub fn symbol_type_table(&self) -> (t: &SymbolTypeTable)
        ensures
            t == self.table(),
    {
        &self.symbol_type_table
    }

    /// Records an error.
    fn throw_error(&mut self, error: VynError)
        ensures
            final(self).errs() == old(self).errs().push(error),
            final(self).symbol_type_table == old(self).symbol_type_table,
            final(self).loop_depth == old(self).loop_depth,
            final(self).static_eval == old(self).static_eval,
    {
        self.errors.add(error);
    }

    /// Checks every statement (going on after one that fails). `Err` with
    /// the errors when any was recorded: with no earlier errors, `Ok` exactly
    /// when checking the statements in order records none.
    pub fn check_program(&mut self, program: &Program) -> (r: Result<(), ErrorCollector>)
        requires
            old(self).wf(),
        ensures
            old(self).errs().len() == 0 ==> (r is Ok) == stmts_eval(
                old(self).table().symbols(),
                old(self).table().alias_entries(),
                old(self).table().scope_depth(),
                old(self).loops(),
                old(self).statics(),
                program.statements@,
                0,
            ),
            old(self).errs().len() > 0 ==> r is Err,
            r matches Err(c) ==> c.errors@.len() > 0 && c.errors@.len() >= old(self).errs().len(),
    {
        let ghost d = self.table().scope_depth();
        let ghost whole = stmts_eval(
            self.table().symbols(),
            self.table().alias_entries(),
            d,
            self.loops(),
            self.statics(),
            program.statements@,
            0,
        );
        let mut k: usize = 0;
        while k < program.statements.len()
            invariant
                0 <= k <= program.statements@.len(),
                self.wf(),
                self.same_context(*old(self)),
                self.errs().len() >= old(self).errs().len(),
                d == old(self).table().scope_depth(),
                whole == stmts_eval(
                    old(self).table().symbols(),
                    old(self).table().alias_entries(),
                    d,
                    old(self).loops(),
                    old(self).statics(),
                    program.statements@,
                    0,
                ),
                whole == (self.errs().len() == old(self).errs().len() && stmts_eval(
                    self.table().symbols(),
                    self.table().alias_entries(),
                    d,
                    old(self).loops(),
                    old(self).statics(),
                    program.statements@,
                    k as int,
                )),
            decreases program.statements@.len() - k,
        {
            let _ = self.check_statement(&program.statements[k]);
            k = k + 1;
        }
        if self.errors.has_errors() {
            Err(self.errors.take())
        } else {
            Ok(())
        }
    }

    /// Checks an expression, with the type the context expects if any, and
    /// gives its type. An error is recorded exactly when it fails.
    #[verifier::rlimit(100)]
    #[verifier::spinoff_prover]
    pub fn check_expression(&mut self, expr: &Expression, expected_type: Option<Type>) -> (r: Result<Type, ()>)
        requires
            old(self).wf(),
        ensures
            final(self).wf(),
            final(self).same_context(*old(self)),
            final(self).errs().len() >= old(self).errs().len(),
            forall|i: int| 0 <= i < old(self).errs().len() ==> #[trigger] final(self).errs()[i] == old(self).errs()[i],
            r is Err ==> final(self).errs().len() > old(self).errs().len(),
            r is Ok ==> final(self).errs() == old(self).errs(),
            r is Err ==> final(self).errs().len() == old(self).errs().len() + 1
                && final(self).errs().drop_last() == old(self).errs()
                && fault_is(final(self).errs().last(), expr_fault(old(self).table().symbols(), expr.node, expr.span, expected_type)),
            final(self).table().symbols() == old(self).table().symbols(),
            final(self).table() == old(self).table(),
            expr.node is IntegerLiteral ==> r == Ok::<Type, ()>(Type::Integer),
            expr.node is FloatLiteral ==> r == Ok::<Type, ()>(Type::Float),
            expr.node is BooleanLiteral ==> r == Ok::<Type, ()>(Type::Bool),
            expr.node is StringLiteral ==> r == Ok::<Type, ()>(Type::String),
            expr.node is NilLiteral ==> r == Ok::<Type, ()>(Type::Nil),
            expr.node matches Expr::Identifier(name) ==> match resolve_spec(old(self).table().symbols(), name@) {
                Some(s) => r == Ok::<Type, ()>(s.symbol_type),
                None => r is Err,
            },
            (match r {
                Ok(t) => Some(t),
                Err(_) => None::<Type>,
            }) == expr_type(old(self).table().symbols(), expr.node, expected_type),
            expr.node is ArrayLiteral && expected_type is Some && expected_type->Some_0 is Array
                && expr.node->ArrayLiteral_elements@.len() != expected_type->Some_0->Array_1 ==> r is Err && final(self).errs() == old(self).errs().push(
                VynError::ArrayLengthMismatch {
                    expected: expected_type->Some_0->Array_1,
                    got: expr.node->ArrayLiteral_elements@.len() as usize,
                    span: expr.span,
                },
            ),
            expr.node is Index && expr_type(old(self).table().symbols(), expr.node->Index_property.node, None)
                == Some(Type::Integer) ==> match expr_type(old(self).table().symbols(), expr.node->Index_target.node, None) {
                Some(Type::Array(et, _)) => r == Ok::<Type, ()>(*et),
                Some(Type::Sequence(et)) => r == Ok::<Type, ()>(*et),
                _ => r is Err,
            },
        decreases expr.node, 1int,
    {
        let span = expr.span;
        match &expr.node {
            Expr::IntegerLiteral(_) => Ok(Type::Integer),
            Expr::FloatLiteral(_) => Ok(Type::Float),
            Expr::BooleanLiteral(_) => Ok(Type::Bool),
            Expr::StringLiteral(_) => Ok(Type::String),
            Expr::NilLiteral => Ok(Type::Nil),
            Expr::ArrayLiteral { elements } => {
                if elements.len() == 0 && expected_type.is_none() {
                    self.throw_error(VynError::TypeInfer { expr: expr.node.copy(), span });
                    return Err(());
                }
                let ghost want = expr_type(old(self).table().symbols(), expr.node, expected_type);
                let exp_type = match expected_type {
                    Some(t) => t,
                    None => {
                        proof {
                            broadcast use vstd::std_specs::vec::axiom_vec_index_decreases;
                            assert(decreases_to!(expr.node => expr.node->ArrayLiteral_elements));
                            assert(decreases_to!(expr.node->ArrayLiteral_elements => expr.node->ArrayLiteral_elements[0]));
                            assert(decreases_to!(expr.node => expr.node->ArrayLiteral_elements[0].node));
                        }
                        match self.check_expression(&elements[0], None) {
                            Ok(t) => Type::Sequence(Box::new(t)),
                            Err(()) => return Err(()),
                        }
                    },
                };
                let ghost syms = old(self).table().symbols();
                match exp_type {
                    Type::Array(array_type, size) => {
                        if elements.len() != size {
                            self.throw_error(VynError::ArrayLengthMismatch { expected: size, got: elements.len(), span });
                            return Err(());
                        }
                        assert(want == (if elements_have(syms, elements@, elements@.len(), *array_type) {
                            Some(Type::Array(array_type, size))
                        } else {
                            None
                        }));

                    let mut k: usize = 0;
                    while k < elements.len()
                        invariant
                            0 <= k <= elements@.len(),
                            self.wf(),
                            self.same_context(*old(self)),
                            self.errs() == old(self).errs(),
                            self.table().symbols() == old(self).table().symbols(),
                            self.table() == old(self).table(),
                            expr.node is ArrayLiteral,
                            expr.node->ArrayLiteral_elements == *elements,
                            elements_have(old(self).table().symbols(), elements@, k as nat, *array_type),
                            expr_fault(old(self).table().symbols(), expr.node, expr.span, expected_type) == elems_fault(
                                old(self).table().symbols(), elements@, elements@.len() as nat, *array_type),
                            elements@.len() == size,
                            expected_type is Some ==> expected_type == Some(Type::Array(array_type, size)),
                            want == expr_type(old(self).table().symbols(), expr.node, expected_type),
                            want == (if elements_have(old(self).table().symbols(), elements@, elements@.len(), *array_type) {
                                Some(Type::Array(array_type, size))
                            } else {
                                None
                            }),
                        decreases elements@.len() - k,
                    {
                        proof {
                            broadcast use vstd::std_specs::vec::axiom_vec_index_decreases;
                            assert(decreases_to!(expr.node => expr.node->ArrayLiteral_elements));
                            assert(decreases_to!(expr.node->ArrayLiteral_elements => expr.node->ArrayLiteral_elements[k as int]));
                            assert(decreases_to!(expr.node => expr.node->ArrayLiteral_elements[k as int].node));
                        }
                        let elem = &elements[k];
                        let ghost syms = old(self).table().symbols();
                        proof {
                            if expr_type(syms, elements@[k as int].node, Some(*array_type)) != Some(*array_type) {
                                lemma_elems_fault(syms, elements@, elements@.len() as nat, *array_type, k as nat);
                            }
                        }
                        let elem_type = match self.check_expression(elem, Some(array_type.copy())) {
                            Ok(t) => t,
                            Err(()) => {
                                proof {
                                    if elements_have(syms, elements@, elements@.len(), *array_type) {
                                        lemma_elements_have(syms, elements@, elements@.len(), *array_type, k as int);
                                    }
                                }
                                return Err(());
                            },
                        };
                        if !elem_type.same(&array_type) {
                            proof {
                                if elements_have(syms, elements@, elements@.len(), *array_type) {
                                    lemma_elements_have(syms, elements@, elements@.len(), *array_type, k as int);
                                }
                            }
                            let ex = vec![array_type.copy()];
                            proof {
                                assert(ex@ =~= seq![*array_type]);
                            }
                            self.throw_error(VynError::TypeMismatch { expected: ex, found: elem_type, span: elem.span });
                            return Err(());
                        }
                        k = k + 1;
                    }
                        Ok(Type::Array(array_type, size))
                    },
                    Type::Sequence(seq_type) => {
                        if elements.len() == 0 {
                            return Ok(Type::Sequence(seq_type));
                        }
                        assert(want == (if elements_have(syms, elements@, elements@.len(), *seq_type) {
                            Some(Type::Sequence(seq_type))
                        } else {
                            None
                        }));

                    let mut k: usize = 0;
                    while k < elements.len()
                        invariant
                            0 <= k <= elements@.len(),
                            self.wf(),
                            self.same_context(*old(self)),
                            self.errs() == old(self).errs(),
                            self.table().symbols() == old(self).table().symbols(),
                            self.table() == old(self).table(),
                            expr.node is ArrayLiteral,
                            expr.node->ArrayLiteral_elements == *elements,
                            elements_have(old(self).table().symbols(), elements@, k as nat, *seq_type),
                            expr_fault(old(self).table().symbols(), expr.node, expr.span, expected_type) == elems_fault(
                                old(self).table().symbols(), elements@, elements@.len() as nat, *seq_type),
                            expected_type is Some ==> expected_type == Some(Type::Sequence(seq_type)),
                            want == expr_type(old(self).table().symbols(), expr.node, expected_type),
                            want == (if elements_have(old(self).table().symbols(), elements@, elements@.len(), *seq_type) {
                                Some(Type::Sequence(seq_type))
                            } else {
                                None
                            }),
                        decreases elements@.len() - k,
                    {
                        proof {
                            broadcast use vstd::std_specs::vec::axiom_vec_index_decreases;
                            assert(decreases_to!(expr.node => expr.node->ArrayLiteral_elements));
                            assert(decreases_to!(expr.node->ArrayLiteral_elements => expr.node->ArrayLiteral_elements[k as int]));
                            assert(decreases_to!(expr.node => expr.node->ArrayLiteral_elements[k as int].node));
                        }
                        let elem = &elements[k];
                        let ghost syms = old(self).table().symbols();
                        proof {
                            if expr_type(syms, elements@[k as int].node, Some(*seq_type)) != Some(*seq_type) {
                                lemma_elems_fault(syms, elements@, elements@.len() as nat, *seq_type, k as nat);
                            }
                        }
                        let elem_type = match self.check_expression(elem, Some(seq_type.copy())) {
                            Ok(t) => t,
                            Err(()) => {
                                proof {
                                    if elements_have(syms, elements@, elements@.len(), *seq_type) {
                                        lemma_elements_have(syms, elements@, elements@.len(), *seq_type, k as int);
                                    }
                                }
                                return Err(());
                            },
                        };
                        if !elem_type.same(&seq_type) {
                            proof {
                                if elements_have(syms, elements@, elements@.len(), *seq_type) {
                                    lemma_elements_have(syms, elements@, elements@.len(), *seq_type, k as int);
                                }
                            }
                            let ex = vec![seq_type.copy()];
                            proof {
                                assert(ex@ =~= seq![*seq_type]);
                            }
                            self.throw_error(VynError::TypeMismatch { expected: ex, found: elem_type, span: elem.span });
                            return Err(());
                        }
                        k = k + 1;
                    }
                        Ok(Type::Sequence(seq_type))
                    },
                    unknown => {
                        let expected = unknown.copy();
                        let ex = vec![expected];
                        proof {
                            assert(ex@ =~= seq![unknown]);
                        }
                        self.throw_error(VynError::TypeMismatch { expected: ex, found: unknown, span });
                        Err(())
                    },
                }
            },
            Expr::Identifier(name) => {
                match self.symbol_type_table.resolve_identifier(name.as_str(), span, &mut self.errors) {
                    Ok(symbol) => Ok(symbol.symbol_type.copy()),
                    Err(()) => Err(()),
                }
            },
            Expr::Unary { operator, right } => self.check_unary(operator, right, span, Ghost(expr.node)),
            Expr::Index { target, property } => {
                let target_type = match self.check_expression(target, None) {
                    Ok(t) => t,
                    Err(()) => return Err(()),
                };
                let property_type = match self.check_expression(property, None) {
                    Ok(t) => t,
                    Err(()) => return Err(()),
                };
                if !property_type.same(&Type::Integer) {
                    let ex = vec![Type::Integer];
                    proof {
                        assert(ex@ =~= seq![Type::Integer]);
                    }
                    self.throw_error(VynError::TypeMismatch { expected: ex, found: property_type, span: property.span });
                    return Err(());
                }
                match target_type {
                    Type::Array(element_type, _) => Ok(*element_type),
                    Type::Sequence(element_type) => Ok(*element_type),
                    other => {
                        self.throw_error(VynError::InvalidIndexing { target: other, span });
                        Err(())
                    },
                }
            },
            Expr::IndexAssignment { target, property, new_value } => {
                match &target.node {
                    Expr::Identifier(name) => {
                        let (mutable, is_static, symbol_span) = match self.symbol_type_table.resolve_identifier(
                            name.as_str(), target.span, &mut self.errors) {
                            Ok(symbol) => (symbol.mutable, symbol.is_static(), symbol.span),
                            Err(()) => return Err(()),
                        };
                        if !mutable {
                            self.throw_error(VynError::ImmutableMutation { identifier: name.clone(), span: symbol_span, mutation_span: span });
                            return Err(());
                        }
                        if is_static {
                            self.throw_error(VynError::StaticMutation { identifier: name.clone(), mutator_span: span, span: symbol_span });
                            return Err(());
                        }
                    },
                    _ => {},
                }
                assert(index_target_ok(old(self).table().symbols(), target.node));
                let target_type = match self.check_expression(target, None) {
                    Ok(t) => t,
                    Err(()) => return Err(()),
                };
                let property_type = match self.check_expression(property, None) {
                    Ok(t) => t,
                    Err(()) => return Err(()),
                };
                if !property_type.same(&Type::Integer) {
                    let ex = vec![Type::Integer];
                    proof {
                        assert(ex@ =~= seq![Type::Integer]);
                    }
                    self.throw_error(VynError::TypeMismatch { expected: ex, found: property_type, span: property.span });
                    return Err(());
                }
                let ghost syms = old(self).table().symbols();
                let ghost target_ty = target_type;
                match target_type {
                    Type::Array(element_type, _) | Type::Sequence(element_type) => {
                        assert(expr_type(syms, expr.node, expected_type) == assigned_type(
                            syms,
                            new_value.node,
                            *element_type,
                        )) by {
                            assert(expr_type(syms, target.node, None) == Some(target_ty));
                            assert(expr_type(syms, property.node, None) == Some(Type::Integer));
                        }
                        let new_value_type = match self.check_expression(new_value, Some((*element_type).copy())) {
                            Ok(t) => t,
                            Err(()) => return Err(()),
                        };
                        if !element_type.same(&new_value_type) {
                            let ex = vec![(*element_type).copy()];
                            proof {
                                assert(ex@ =~= seq![*element_type]);
                            }
                            self.throw_error(VynError::TypeMismatch {
                                expected: ex,
                                found: new_value_type,
                                span: new_value.span,
                            });
                            return Err(());
                        }
                        Ok(*element_type)
                    },
                    other => {
                        self.throw_error(VynError::InvalidIndexing { target: other, span });
                        Err(())
                    },
                }
            },
            Expr::BinaryOperation { left, operator, right } => self.check_binary_expr(operator, left, right, span, Ghost(expr.node)),
            Expr::VariableAssignment { identifier, new_value } => {
                let ident_name = match &identifier.node {
                    Expr::Identifier(n) => n.clone(),
                    _ => {
                        self.throw_error(VynError::LeftHandAssignment { span });
                        return Err(());
                    },
                };
                let (is_mutable, is_static, ident_span, declared_type) = match self.symbol_type_table.resolve_identifier(
                    ident_name.as_str(), span, &mut self.errors) {
                    Ok(symbol) => (symbol.mutable, symbol.is_static(), symbol.span, symbol.symbol_type.copy()),
                    Err(()) => return Err(()),
                };
                if is_static {
                    self.throw_error(VynError::StaticMutation { identifier: ident_name, mutator_span: span, span: ident_span });
                    return Err(());
                }
                if !is_mutable {
                    self.throw_error(VynError::ImmutableMutation { identifier: ident_name, span: ident_span, mutation_span: span });
                    return Err(());
                }
                assert(expr_type(old(self).table().symbols(), expr.node, expected_type) == assigned_type(
                    old(self).table().symbols(),
                    new_value.node,
                    declared_type,
                ));
                let new_value_type = match self.check_expression(new_value, Some(declared_type.copy())) {
                    Ok(t) => t,
                    Err(()) => return Err(()),
                };
                if !declared_type.same(&new_value_type) {
                    let ex = vec![declared_type.copy()];
                    proof {
                        assert(ex@ =~= seq![declared_type]);
                    }
                    self.throw_error(VynError::TypeMismatch { expected: ex, found: new_value_type, span: new_value.span });
                    return Err(());
                }
                Ok(declared_type)
            },
        }
    }

    /// Checks `operator right`: minus and plus take a number and keep its
    /// type; `!` takes and gives a boolean.
    pub(crate) fn check_unary(&mut self, operator: &Token, right: &Expression, span: Span, Ghost(whole): Ghost<Expr>) -> (r: Result<Type, ()>)
        requires
            old(self).wf(),
            whole is Unary,
            *whole->Unary_right == *right,
            whole->Unary_operator == *operator,
        ensures
            final(self).wf(),
            final(self).same_context(*old(self)),
            final(self).errs().len() >= old(self).errs().len(),
            forall|i: int| 0 <= i < old(self).errs().len() ==> #[trigger] final(self).errs()[i] == old(self).errs()[i],
            r is Err ==> final(self).errs().len() > old(self).errs().len(),
            r is Ok ==> final(self).errs() == old(self).errs(),
            r is Err ==> final(self).errs().len() == old(self).errs().len() + 1
                && final(self).errs().drop_last() == old(self).errs()
                && fault_is(final(self).errs().last(), expr_fault(old(self).table().symbols(), whole, span, None)),
            final(self).table().symbols() == old(self).table().symbols(),
            final(self).table() == old(self).table(),
            (match r {
                Ok(t) => Some(t),
                Err(_) => None::<Type>,
            }) == expr_type(old(self).table().symbols(), whole, None),
        decreases whole, 0int,
    {
        proof {
            assert(decreases_to!(whole => whole->Unary_right));
        }
        let right_type = match self.check_expression(right, None) {
            Ok(t) => t,
            Err(()) => return Err(()),
        };
        let tt = operator.get_token_type();
        if tt == TokenType::Minus || tt == TokenType::Plus {
            if !right_type.same(&Type::Integer) && !right_type.same(&Type::Float) {
                let ex = vec![Type::Integer, Type::Float];
                proof {
                    assert(ex@ =~= seq![Type::Integer, Type::Float]);
                }
                self.throw_error(VynError::TypeMismatch { expected: ex, found: right_type, span });
                return Err(());
            }
            proof {
                assert(unary_type(tt, right_type) == Some(right_type));
            }
            Ok(right_type)
        } else if tt == TokenType::Bang {
            if !right_type.same(&Type::Bool) {
                let ex = vec![Type::Bool];
                proof {
                    assert(ex@ =~= seq![Type::Bool]);
                }
                self.throw_error(VynError::TypeMismatch { expected: ex, found: right_type, span });
                return Err(());
            }
            proof {
                assert(unary_type(tt, Type::Bool) == Some(Type::Bool));
            }
            Ok(Type::Bool)
        } else {
            self.throw_error(VynError::InvalidUnaryOperator { operator: operator.copy(), span });
            Err(())
        }
    }

    /// Checks `left operator right`: arithmetic takes two numbers of one
    /// type and keeps it; comparisons take two values of one type and give
    /// a boolean; `and`/`or` take and give booleans.
    pub(crate) fn check_binary_expr(&mut self, operator: &Token, left: &Expression, right: &Expression, span: Span, Ghost(whole): Ghost<Expr>) -> (r: Result<Type, ()>)
        requires
            old(self).wf(),
            whole is BinaryOperation,
            *whole->BinaryOperation_left == *left,
            *whole->BinaryOperation_right == *right,
            whole->BinaryOperation_operator == *operator,
        ensures
            final(self).wf(),
            final(self).same_context(*old(self)),
            final(self).errs().len() >= old(self).errs().len(),
            forall|i: int| 0 <= i < old(self).errs().len() ==> #[trigger] final(self).errs()[i] == old(self).errs()[i],
            r is Err ==> final(self).errs().len() > old(self).errs().len(),
            r is Ok ==> final(self).errs() == old(self).errs(),
            r is Err ==> final(self).errs().len() == old(self).errs().len() + 1
                && final(self).errs().drop_last() == old(self).errs()
                && fault_is(final(self).errs().last(), expr_fault(old(self).table().symbols(), whole, span, None)),
            final(self).table().symbols() == old(self).table().symbols(),
            final(self).table() == old(self).table(),
            (match r {
                Ok(t) => Some(t),
                Err(_) => None::<Type>,
            }) == expr_type(old(self).table().symbols(), whole, None),
        decreases whole, 0int,
    {
        proof {
            assert(decreases_to!(whole => whole->BinaryOperation_left));
            assert(decreases_to!(whole => whole->BinaryOperation_right));
        }
        let left_type = match self.check_expression(left, None) {
            Ok(t) => t,
            Err(()) => return Err(()),
        };
        let right_type = match self.check_expression(right, None) {
            Ok(t) => t,
            Err(()) => return Err(()),
        };
        let tt = operator.get_token_type();
        if tt == TokenType::Plus || tt == TokenType::Minus || tt == TokenType::Asterisk || tt == TokenType::Slash
            || tt == TokenType::Caret {
            if !left_type.same(&right_type) {
                let ex = vec![left_type.copy()];
                proof {
                    assert(ex@ =~= seq![left_type]);
                }
                self.throw_error(VynError::TypeMismatch { expected: ex, found: right_type, span });
                return Err(());
            }
            if !left_type.same(&Type::Integer) && !left_type.same(&Type::Float) {
                self.throw_error(VynError::TypeMismatch { expected: vec![Type::Integer, Type::Float], found: left_type, span });
                return Err(());
            }
            proof {
                assert(binary_type(tt, left_type, right_type) == Some(left_type));
            }
            Ok(left_type)
        } else if tt == TokenType::Equal || tt == TokenType::NotEqual || tt == TokenType::GreaterThan
            || tt == TokenType::GreaterThanEqual || tt == TokenType::LessThan || tt == TokenType::LessThanEqual {
            if !left_type.same(&right_type) {
                let ex = vec![left_type.copy()];
                proof {
                    assert(ex@ =~= seq![left_type]);
                }
                self.throw_error(VynError::TypeMismatch { expected: ex, found: right_type, span });
                return Err(());
            }
            proof {
                assert(binary_type(tt, left_type, right_type) == Some(Type::Bool));
            }
            Ok(Type::Bool)
        } else if tt == TokenType::And || tt == TokenType::Or {
            if !left_type.same(&Type::Bool) || !right_type.same(&Type::Bool) {
                let found = if !left_type.same(&Type::Bool) { left_type } else { right_type };
                let ex = vec![Type::Bool];
                proof {
                    assert(ex@ =~= seq![Type::Bool]);
                }
                self.throw_error(VynError::TypeMismatch { expected: ex, found, span });
                return Err(());
            }
            proof {
                assert(binary_type(tt, Type::Bool, Type::Bool) == Some(Type::Bool));
            }
            Ok(Type::Bool)
        } else {
            self.throw_error(VynError::InvalidBinaryOperator { operator: operator.copy(), span });
            Err(())
        }
    }

    fn name_of(e: &Expression) -> (r: Option<String>)
        ensures
            r matches Some(n) ==> e.node == Expr::Identifier(n),
            r is None ==> !(e.node is Identifier),
    {
        match &e.node {
            Expr::Identifier(n) => Some(n.clone()),
            _ => None,
        }
    }

    /// Checks a statement. An error is recorded whenever it fails; a
    /// statement that passes may still record errors of its annotations.
    #[verifier::rlimit(100)]
    #[verifier::spinoff_prover]
    pub fn check_statement(&mut self, stmt: &Statement) -> (r: Result<(), ()>)
        requires
            old(self).wf(),
        ensures
            final(self).wf(),
            final(self).same_context(*old(self)),
            final(self).errs().len() >= old(self).errs().len(),
            forall|i: int| 0 <= i < old(self).errs().len() ==> #[trigger] final(self).errs()[i] == old(self).errs()[i],
            r is Err ==> final(self).errs().len() > old(self).errs().len(),
            extends_at(old(self).table().symbols(), final(self).table().symbols(), old(self).table().scope_depth()),
            extends_at(old(self).table().alias_entries(), final(self).table().alias_entries(), old(self).table().scope_depth()),
            ({
                let e = stmt_eval(
                    old(self).table().symbols(),
                    old(self).table().alias_entries(),
                    old(self).table().scope_depth(),
                    old(self).loops(),
                    old(self).statics(),
                    stmt.node,
                    stmt.span,
                );
                &&& e.0 == final(self).table().symbols()
                &&& e.1 == final(self).table().alias_entries()
                &&& e.2 == (r is Ok)
                &&& e.3 == (final(self).errs().len() == old(self).errs().len())
            }),
            (stmt.node is Break || stmt.node is Continue) && old(self).loops() == 0 ==> final(self).errs()
                == old(self).errs().push(
                VynError::IllegalLoopInterruptToken {
                    token_type: if stmt.node is Break { TokenType::Break } else { TokenType::Continue },
                    span: stmt.span,
                },
            ),
            stmt.node matches Stmt::Expression { expression } ==> (r is Err ==> final(self).errs().drop_last() == old(self).errs()
                && final(self).errs().len() == old(self).errs().len() + 1 && fault_is(final(self).errs().last(),
                expr_fault(old(self).table().symbols(), expression.node, expression.span, None))),
            stmt.node matches Stmt::StdoutLog { log_value } ==> (r is Err ==> final(self).errs().drop_last() == old(self).errs()
                && final(self).errs().len() == old(self).errs().len() + 1 && fault_is(final(self).errs().last(),
                expr_fault(old(self).table().symbols(), log_value.node, log_value.span, None))),
            stmt.node is Block ==> r is Err && final(self).errs().len() == old(self).errs().len() + 1
                && final(self).errs().drop_last() == old(self).errs()
                && (final(self).errs().last() matches VynError::NotImplemented { feature, span }
                && feature@ == "block statement"@ && span == stmt.span),
            stmt.node matches Stmt::WhenLoop { condition, .. } ==> match expr_type(old(self).table().symbols(), condition.node, Some(Type::Bool)) {
                None => r is Err && final(self).errs().drop_last() == old(self).errs()
                    && final(self).errs().len() == old(self).errs().len() + 1 && fault_is(final(self).errs().last(),
                    expr_fault(old(self).table().symbols(), condition.node, condition.span, Some(Type::Bool))),
                Some(ct) => ct != Type::Bool ==> r is Err && final(self).errs().drop_last() == old(self).errs()
                    && final(self).errs().len() == old(self).errs().len() + 1 && fault_is(final(self).errs().last(),
                    CheckFault::Mismatch(seq![Type::Bool], ct, condition.span)),
            },
            stmt.node matches Stmt::VariableDeclaration { identifier, .. } ==> (!(identifier.node is Identifier) ==> r is Err
                && final(self).errs().last() == (VynError::LeftHandAssignment { span: identifier.span })),
            stmt.node matches Stmt::StaticVariableDeclaration { identifier, .. } ==> (!(identifier.node is Identifier)
                && r is Err ==> final(self).errs().last() == (VynError::LeftHandAssignment { span: identifier.span })
                || fault_is(final(self).errs().last(), expr_fault(old(self).table().symbols(),
                    stmt.node->StaticVariableDeclaration_value.node, stmt.node->StaticVariableDeclaration_value.span,
                    Some(annotation_type(stmt.node->StaticVariableDeclaration_annotated_type, old(self).statics()))))),
            stmt.node matches Stmt::VariableDeclaration { identifier, .. } ==> (identifier.node matches Expr::Identifier(name)
                ==> (declared_at(old(self).table().symbols(), name@, old(self).table().scope_depth()) ==> r is Err
                && (final(self).errs().last() matches VynError::VariableRedeclaration { name: n, redeclaration_span, .. }
                && n@ == name@ && redeclaration_span == stmt.span))),
            stmt.node matches Stmt::TypeAliasDeclaration { identifier, .. } ==> (!(identifier.node is Identifier) ==> r is Err
                && final(self).errs().last() == (VynError::LeftHandAssignment { span: identifier.span })),
            stmt.node matches Stmt::VariableDeclaration { identifier, value, annotated_type, .. } ==> (identifier.node is Identifier
                && value is Some && r is Err && !declared_at(old(self).table().symbols(), identifier.node->Identifier_0@,
                old(self).table().scope_depth()) ==> match expr_type(final(self).table().symbols(), value->Some_0.node,
                Some(annotation_type(annotated_type, old(self).statics()))) {
                None => fault_is(final(self).errs().last(), expr_fault(final(self).table().symbols(), value->Some_0.node,
                    value->Some_0.span, Some(annotation_type(annotated_type, old(self).statics())))),
                Some(vt) => final(self).errs().last() == (VynError::DeclarationTypeMismatch {
                    got: vt,
                    expected: annotation_type(annotated_type, old(self).statics()),
                    span: stmt.span,
                }),
            }),
            stmt.node matches Stmt::StaticVariableDeclaration { value, annotated_type, .. } ==> match expr_type(
                old(self).table().symbols(), value.node, Some(annotation_type(annotated_type, old(self).statics()))) {
                None => r is Err && fault_is(final(self).errs().last(), expr_fault(old(self).table().symbols(), value.node,
                    value.span, Some(annotation_type(annotated_type, old(self).statics())))),
                Some(vt) => vt != annotation_type(annotated_type, old(self).statics()) && stmt.node->StaticVariableDeclaration_identifier.node is Identifier
                    && !declared_at(old(self).table().symbols(), stmt.node->StaticVariableDeclaration_identifier.node->Identifier_0@,
                    old(self).table().scope_depth()) ==> r is Err && final(self).errs().last() == (VynError::DeclarationTypeMismatch {
                    got: vt,
                    expected: annotation_type(annotated_type, old(self).statics()),
                    span: stmt.span,
                }),
            },
            stmt.node matches Stmt::IndexLoop { iterator, range, .. } ==> (!(iterator.node is Identifier) ==> r is Err
                && one_more(old(self).errs(), final(self).errs(), CheckFault::Mismatch(seq![Type::Identifier], Type::Identifier,
                iterator.span))),
            stmt.node matches Stmt::IndexLoop { iterator, range, .. } ==> (iterator.node is Identifier ==> match expr_type(
                old(self).table().symbols(), range.node, Some(Type::Integer)) {
                None => r is Err && one_more(old(self).errs(), final(self).errs(), expr_fault(old(self).table().symbols(),
                    range.node, range.span, Some(Type::Integer))),
                Some(rt) => rt != Type::Integer ==> r is Err && one_more(old(self).errs(), final(self).errs(),
                    CheckFault::Mismatch(seq![Type::Integer], rt, range.span)),
            }),
            stmt.node matches Stmt::IfDeclaration { condition, .. } ==> match expr_type(old(self).table().symbols(),
                condition.node, None) {
                None => r is Err && one_more(old(self).errs(), final(self).errs(), expr_fault(old(self).table().symbols(),
                    condition.node, condition.span, None)),
                Some(ct) => ct != Type::Bool ==> r is Err && one_more(old(self).errs(), final(self).errs(),
                    CheckFault::Mismatch(seq![Type::Bool], ct, condition.span)),
            },
        decreases stmt.node, 1int,
    {
        let span = stmt.span;
        proof {
            lemma_extends_refl(self.table().symbols(), self.table().scope_depth());
            lemma_extends_refl(self.table().alias_entries(), self.table().scope_depth());
        }
        match &stmt.node {
            Stmt::Expression { expression } => {
                match self.check_expression(expression, None) {
                    Ok(_) => Ok(()),
                    Err(()) => Err(()),
                }
            },
            Stmt::VariableDeclaration { identifier, value, annotated_type, mutable } => {
                let expected_type = Type::from_anotated_type(annotated_type, self.static_eval, &mut self.errors);
                let var_name = match Self::name_of(identifier) {
                    Some(n) => n,
                    None => {
                        self.throw_error(VynError::LeftHandAssignment { span: identifier.span });
                        return Err(());
                    },
                };
                let ghost e1 = self.errs();
                let ghost s1 = self.table().symbols();
                match self.symbol_type_table.declare_identifier(var_name, expected_type.copy(), span, *mutable, &mut self.errors) {
                    Ok(()) => {
                        proof {
                            lemma_extends_push(s1, self.table().symbols().last(), self.table().scope_depth());
                            assert(self.table().symbols() == s1.push(self.table().symbols().last()));
                        }
                    },
                    Err(()) => {
                        proof {
                            assert forall|i: int| 0 <= i < e1.len() implies #[trigger] self.errs()[i] == e1[i] by {
                                assert(self.errs().drop_last()[i] == self.errs()[i]);
                            }
                        }
                        return Err(());
                    },
                }
                match value {
                    Some(val) => {
                        let value_type = match self.check_expression(val, Some(expected_type.copy())) {
                            Ok(t) => t,
                            Err(()) => return Err(()),
                        };
                        if !expected_type.same(&value_type) {
                            self.throw_error(VynError::DeclarationTypeMismatch { got: value_type, expected: expected_type, span });
                            return Err(());
                        }
                        Ok(())
                    },
                    None => Ok(()),
                }
            },
            Stmt::WhenLoop { condition, body } => {
                let condition_type = match self.check_expression(condition, Some(Type::Bool)) {
                    Ok(t) => t,
                    Err(()) => return Err(()),
                };
                if !condition_type.same(&Type::Bool) {
                    let ex = vec![Type::Bool];
                    proof {
                        assert(ex@ =~= seq![Type::Bool]);
                    }
                    self.throw_error(VynError::TypeMismatch { expected: ex, found: condition_type, span: condition.span });
                    return Err(());
                }
                let saved = self.loop_depth;
                self.loop_depth = if saved < usize::MAX { saved + 1 } else { saved };
                let result = self.check_statement(body);
                self.loop_depth = saved;
                result
            },
            Stmt::IndexLoop { .. } => self.check_index_loop(stmt),
            Stmt::Loop { body } => {
                let saved = self.loop_depth;
                self.loop_depth = if saved < usize::MAX { saved + 1 } else { saved };
                let result = self.check_statement(body);
                self.loop_depth = saved;
                result
            },
            Stmt::Break => {
                if self.loop_depth == 0 {
                    self.throw_error(VynError::IllegalLoopInterruptToken { token_type: TokenType::Break, span });
                    return Err(());
                }
                Ok(())
            },
            Stmt::Continue => {
                if self.loop_depth == 0 {
                    self.throw_error(VynError::IllegalLoopInterruptToken { token_type: TokenType::Continue, span });
                    return Err(());
                }
                Ok(())
            },
            Stmt::StaticVariableDeclaration { identifier, value, annotated_type } => {
                let expected_type = Type::from_anotated_type(annotated_type, self.static_eval, &mut self.errors);
                let value_type = match self.check_expression(value, Some(expected_type.copy())) {
                    Ok(t) => t,
                    Err(()) => return Err(()),
                };
                let var_name = match Self::name_of(identifier) {
                    Some(n) => n,
                    None => {
                        self.throw_error(VynError::LeftHandAssignment { span: identifier.span });
                        return Err(());
                    },
                };
                let ghost e1 = self.errs();
                let ghost s1 = self.table().symbols();
                match self.symbol_type_table.declare_static_identifier(var_name, expected_type.copy(), span, &mut self.errors) {
                    Ok(()) => {
                        proof {
                            lemma_extends_push(s1, self.table().symbols().last(), self.table().scope_depth());
                            assert(self.table().symbols() == s1.push(self.table().symbols().last()));
                        }
                    },
                    Err(()) => {
                        proof {
                            assert forall|i: int| 0 <= i < e1.len() implies #[trigger] self.errs()[i] == e1[i] by {
                                assert(self.errs().drop_last()[i] == self.errs()[i]);
                            }
                        }
                        return Err(());
                    },
                }
                if !expected_type.same(&value_type) {
                    self.throw_error(VynError::DeclarationTypeMismatch { got: value_type, expected: expected_type, span });
                    return Err(());
                }
                Ok(())
            },
            Stmt::TypeAliasDeclaration { identifier, value } => {
                let name = match Self::name_of(identifier) {
                    Some(n) => n,
                    None => {
                        self.throw_error(VynError::LeftHandAssignment { span: identifier.span });
                        return Err(());
                    },
                };
                let resolved_type = Type::from_anotated_type(value, self.static_eval, &mut self.errors);
                let ghost a0 = self.table().alias_entries();
                match self.symbol_type_table.enroll_type_alias(name, resolved_type, span) {
                    Ok(()) => {
                        proof {
                            let a1 = self.table().alias_entries();
                            lemma_extends_push(a0, a1.last(), self.table().scope_depth());
                            assert(a1 == a0.push(a1.last()));
                        }
                        Ok(())
                    },
                    Err(err) => {
                        self.throw_error(err);
                        Err(())
                    },
                }
            },
            Stmt::Scope { .. } => self.check_scope(stmt),
            Stmt::IfDeclaration { .. } => self.check_if(stmt),
            Stmt::StdoutLog { log_value } => {
                match self.check_expression(log_value, None) {
                    Ok(_) => Ok(()),
                    Err(()) => Err(()),
                }
            },
            Stmt::Block { .. } => {
                self.throw_error(VynError::NotImplemented { feature: "block statement".to_string(), span });
                Err(())
            },
        }
    }

    /// Checks a `for` loop: the iterator is an integer declared in a scope of
    /// its own around the body.
    #[verifier::spinoff_prover]
    fn check_index_loop(&mut self, stmt: &Statement) -> (r: Result<(), ()>)
        requires
            old(self).wf(),
            stmt.node is IndexLoop,
        ensures
            final(self).wf(),
            final(self).same_context(*old(self)),
            final(self).errs().len() >= old(self).errs().len(),
            forall|i: int| 0 <= i < old(self).errs().len() ==> #[trigger] final(self).errs()[i] == old(self).errs()[i],
            r is Err ==> final(self).errs().len() > old(self).errs().len(),
            extends_at(old(self).table().symbols(), final(self).table().symbols(), old(self).table().scope_depth()),
            extends_at(old(self).table().alias_entries(), final(self).table().alias_entries(), old(self).table().scope_depth()),
            ({
                let e = stmt_eval(
                    old(self).table().symbols(),
                    old(self).table().alias_entries(),
                    old(self).table().scope_depth(),
                    old(self).loops(),
                    old(self).statics(),
                    stmt.node,
                    stmt.span,
                );
                &&& e.0 == final(self).table().symbols()
                &&& e.1 == final(self).table().alias_entries()
                &&& e.2 == (r is Ok)
                &&& e.3 == (final(self).errs().len() == old(self).errs().len())
            }),
            stmt.node matches Stmt::IndexLoop { iterator, range, .. } ==> (!(iterator.node is Identifier) ==> r is Err
                && one_more(old(self).errs(), final(self).errs(), CheckFault::Mismatch(seq![Type::Identifier], Type::Identifier,
                iterator.span))),
            stmt.node matches Stmt::IndexLoop { iterator, range, .. } ==> (iterator.node is Identifier ==> match expr_type(
                old(self).table().symbols(), range.node, Some(Type::Integer)) {
                None => r is Err && one_more(old(self).errs(), final(self).errs(), expr_fault(old(self).table().symbols(),
                    range.node, range.span, Some(Type::Integer))),
                Some(rt) => rt != Type::Integer ==> r is Err && one_more(old(self).errs(), final(self).errs(),
                    CheckFault::Mismatch(seq![Type::Integer], rt, range.span)),
            }),
        decreases stmt.node, 0int,
    {
        let span = stmt.span;
        proof {
            lemma_extends_refl(self.table().symbols(), self.table().scope_depth());
            lemma_extends_refl(self.table().alias_entries(), self.table().scope_depth());
        }
        match &stmt.node {
            Stmt::IndexLoop { body, iterator, range } => {
                let iterator_name = match Self::name_of(iterator) {
                    Some(n) => n,
                    None => {
                        let ex = vec![Type::Identifier];
                        proof {
                            assert(ex@ =~= seq![Type::Identifier]);
                        }
                        self.throw_error(VynError::TypeMismatch { expected: ex, found: Type::Identifier, span: iterator.span });
                        proof {
                            assert(self.errs().drop_last() =~= old(self).errs());
                        }
                        return Err(());
                    },
                };
                let range_type = match self.check_expression(range, Some(Type::Integer)) {
                    Ok(t) => t,
                    Err(()) => return Err(()),
                };
                if !range_type.same(&Type::Integer) {
                    let ex = vec![Type::Integer];
                    proof {
                        assert(ex@ =~= seq![Type::Integer]);
                    }
                    self.throw_error(VynError::TypeMismatch { expected: ex, found: range_type, span: range.span });
                    proof {
                        assert(self.errs().drop_last() =~= old(self).errs());
                    }
                    return Err(());
                }
                if self.symbol_type_table.depth() >= usize::MAX - 2 {
                    self.throw_error(VynError::NotImplemented { feature: "scope nesting this deep".to_string(), span });
                    return Err(());
                }
                let ghost d0 = self.symbol_type_table.scope_depth();
                let ghost s0 = self.symbol_type_table.symbols();
                let ghost a0 = self.symbol_type_table.alias_entries();
                self.symbol_type_table.enter_scope();
                proof {
                    let syms = self.symbol_type_table.symbols();
                    assert(forall|i: int| 0 <= i < syms.len() ==> (#[trigger] syms[i]).2 <= d0);
                    assert(!declared_at(syms, iterator_name@, self.symbol_type_table.scope_depth()));
                }
                let ghost entry = (
                    iterator_name,
                    SymbolType { symbol_type: Type::Integer, span: iterator.span, mutable: false, is_static: false },
                    (d0 + 1) as usize,
                );
                let declared = self.symbol_type_table.declare_identifier(iterator_name, Type::Integer, iterator.span, false, &mut self.errors);
                let saved = self.loop_depth;
                self.loop_depth = if saved < usize::MAX { saved + 1 } else { saved };
                let ghost s1 = self.symbol_type_table.symbols();
                proof {
                    assert(s1 == s0.push(entry));
                    lemma_extends_push(s0, entry, (d0 + 1) as usize);
                    lemma_extends_refl(a0, (d0 + 1) as usize);
                }
                let result = self.check_statement(body);
                self.loop_depth = saved;
                proof {
                    let s2 = self.symbol_type_table.symbols();
                    let a2 = self.symbol_type_table.alias_entries();
                    lemma_extends_trans(s0, s1, s2, (d0 + 1) as usize);
                    assert forall|i: int| 0 <= i < s0.len() implies (#[trigger] s2[i]).2 < d0 + 1 by {
                        assert(s2.subrange(0, s0.len() as int)[i] == s2[i]);
                    }
                    lemma_filter_prefix(s2, s0.len() as int, (d0 + 1) as usize);
                    assert forall|i: int| 0 <= i < a0.len() implies (#[trigger] a2[i]).2 < d0 + 1 by {
                        assert(a2.subrange(0, a0.len() as int)[i] == a2[i]);
                    }
                    lemma_filter_prefix(a2, a0.len() as int, (d0 + 1) as usize);
                }
                self.symbol_type_table.exit_scope();
                result
            },
            _ => Err(()),
        }
    }

    /// Checks a scope: its statements, in a scope of their own, all of them
    /// whatever they record.
    fn check_scope(&mut self, stmt: &Statement) -> (r: Result<(), ()>)
        requires
            old(self).wf(),
            stmt.node is Scope,
        ensures
            final(self).wf(),
            final(self).same_context(*old(self)),
            final(self).errs().len() >= old(self).errs().len(),
            forall|i: int| 0 <= i < old(self).errs().len() ==> #[trigger] final(self).errs()[i] == old(self).errs()[i],
            r is Err ==> final(self).errs().len() > old(self).errs().len(),
            extends_at(old(self).table().symbols(), final(self).table().symbols(), old(self).table().scope_depth()),
            extends_at(old(self).table().alias_entries(), final(self).table().alias_entries(), old(self).table().scope_depth()),
            ({
                let e = stmt_eval(
                    old(self).table().symbols(),
                    old(self).table().alias_entries(),
                    old(self).table().scope_depth(),
                    old(self).loops(),
                    old(self).statics(),
                    stmt.node,
                    stmt.span,
                );
                &&& e.0 == final(self).table().symbols()
                &&& e.1 == final(self).table().alias_entries()
                &&& e.2 == (r is Ok)
                &&& e.3 == (final(self).errs().len() == old(self).errs().len())
            }),
        decreases stmt.node, 0int,
    {
        let span = stmt.span;
        proof {
            lemma_extends_refl(self.table().symbols(), self.table().scope_depth());
            lemma_extends_refl(self.table().alias_entries(), self.table().scope_depth());
        }
        match &stmt.node {
            Stmt::Scope { statements } => {
                if self.symbol_type_table.depth() >= usize::MAX - 2 {
                    self.throw_error(VynError::NotImplemented { feature: "scope nesting this deep".to_string(), span });
                    return Err(());
                }
                let ghost d0 = self.symbol_type_table.scope_depth();
                let ghost s0 = self.symbol_type_table.symbols();
                let ghost a0 = self.symbol_type_table.alias_entries();
                self.symbol_type_table.enter_scope();
                let ghost inner = *self;
                let ghost whole = stmts_eval(s0, a0, (d0 + 1) as usize, old(self).loops(), old(self).statics(), statements@, 0);
                proof {
                    lemma_extends_refl(s0, (d0 + 1) as usize);
                    lemma_extends_refl(a0, (d0 + 1) as usize);
                }
                let mut k: usize = 0;
                while k < statements.len()
                    invariant
                        0 <= k <= statements@.len(),
                        self.wf(),
                        self.same_context(inner),
                        inner.table().scope_depth() == old(self).table().scope_depth() + 1,
                        inner.loops() == old(self).loops(),
                        inner.statics() == old(self).statics(),
                        self.errs().len() >= old(self).errs().len(),
                        forall|i: int| 0 <= i < old(self).errs().len() ==> #[trigger] self.errs()[i] == old(self).errs()[i],
                        stmt.node is Scope,
                        stmt.node->Scope_statements == *statements,
                        extends_at(s0, self.table().symbols(), (d0 + 1) as usize),
                        extends_at(a0, self.table().alias_entries(), (d0 + 1) as usize),
                        inner.table().scope_depth() == d0 + 1,
                        s0 == old(self).table().symbols(),
                        a0 == old(self).table().alias_entries(),
                        d0 == old(self).table().scope_depth(),
                        whole == stmts_eval(s0, a0, (d0 + 1) as usize, old(self).loops(), old(self).statics(), statements@, 0),
                        whole == (self.errs().len() == old(self).errs().len() && stmts_eval(
                            self.table().symbols(),
                            self.table().alias_entries(),
                            (d0 + 1) as usize,
                            old(self).loops(),
                            old(self).statics(),
                            statements@,
                            k as int,
                        )),
                    decreases statements@.len() - k,
                {
                    proof {
                        broadcast use vstd::std_specs::vec::axiom_vec_index_decreases;
                        assert(decreases_to!(stmt.node => stmt.node->Scope_statements));
                        assert(decreases_to!(stmt.node->Scope_statements => stmt.node->Scope_statements[k as int]));
                        assert(decreases_to!(stmt.node => stmt.node->Scope_statements[k as int].node));
                    }
                    let ghost before = self.errs();
                    let ghost sb = self.table().symbols();
                    let ghost ab = self.table().alias_entries();
                    let _ = self.check_statement(&statements[k]);
                    proof {
                        lemma_extends_trans(s0, sb, self.table().symbols(), (d0 + 1) as usize);
                        lemma_extends_trans(a0, ab, self.table().alias_entries(), (d0 + 1) as usize);
                    }
                    proof {
                        assert forall|i: int| 0 <= i < old(self).errs().len() implies #[trigger] self.errs()[i] == old(self).errs()[i] by {
                            assert(self.errs()[i] == before[i]);
                        }
                    }
                    k = k + 1;
                }
                proof {
                    let s2 = self.symbol_type_table.symbols();
                    let a2 = self.symbol_type_table.alias_entries();
                    assert forall|i: int| 0 <= i < s0.len() implies (#[trigger] s2[i]).2 < d0 + 1 by {
                        assert(s2.subrange(0, s0.len() as int)[i] == s2[i]);
                    }
                    lemma_filter_prefix(s2, s0.len() as int, (d0 + 1) as usize);
                    assert forall|i: int| 0 <= i < a0.len() implies (#[trigger] a2[i]).2 < d0 + 1 by {
                        assert(a2.subrange(0, a0.len() as int)[i] == a2[i]);
                    }
                    lemma_filter_prefix(a2, a0.len() as int, (d0 + 1) as usize);
                }
                self.symbol_type_table.exit_scope();
                Ok(())
            },
            _ => Err(()),
        }
    }

    /// Checks a conditional: a boolean condition, then the consequence and, if
    /// that passes, the alternative.
    #[verifier::spinoff_prover]
    fn check_if(&mut self, stmt: &Statement) -> (r: Result<(), ()>)
        requires
            old(self).wf(),
            stmt.node is IfDeclaration,
        ensures
            final(self).wf(),
            final(self).same_context(*old(self)),
            final(self).errs().len() >= old(self).errs().len(),
            forall|i: int| 0 <= i < old(self).errs().len() ==> #[trigger] final(self).errs()[i] == old(self).errs()[i],
            r is Err ==> final(self).errs().len() > old(self).errs().len(),
            extends_at(old(self).table().symbols(), final(self).table().symbols(), old(self).table().scope_depth()),
            extends_at(old(self).table().alias_entries(), final(self).table().alias_entries(), old(self).table().scope_depth()),
            ({
                let e = stmt_eval(
                    old(self).table().symbols(),
                    old(self).table().alias_entries(),
                    old(self).table().scope_depth(),
                    old(self).loops(),
                    old(self).statics(),
                    stmt.node,
                    stmt.span,
                );
                &&& e.0 == final(self).table().symbols()
                &&& e.1 == final(self).table().alias_entries()
                &&& e.2 == (r is Ok)
                &&& e.3 == (final(self).errs().len() == old(self).errs().len())
            }),
            stmt.node matches Stmt::IfDeclaration { condition, .. } ==> match expr_type(old(self).table().symbols(),
                condition.node, None) {
                None => r is Err && one_more(old(self).errs(), final(self).errs(), expr_fault(old(self).table().symbols(),
                    condition.node, condition.span, None)),
                Some(ct) => ct != Type::Bool ==> r is Err && one_more(old(self).errs(), final(self).errs(),
                    CheckFault::Mismatch(seq![Type::Bool], ct, condition.span)),
            },
        decreases stmt.node, 0int,
    {
        proof {
            lemma_extends_refl(self.table().symbols(), self.table().scope_depth());
            lemma_extends_refl(self.table().alias_entries(), self.table().scope_depth());
        }
        match &stmt.node {
            Stmt::IfDeclaration { condition, consequence, alternate } => {
                let condition_type = match self.check_expression(condition, None) {
                    Ok(t) => t,
                    Err(()) => return Err(()),
                };
                if !condition_type.same(&Type::Bool) {
                    let ex = vec![Type::Bool];
                    proof {
                        assert(ex@ =~= seq![Type::Bool]);
                    }
                    self.throw_error(VynError::TypeMismatch { expected: ex, found: condition_type, span: condition.span });
                    proof {
                        assert(self.errs().drop_last() =~= old(self).errs());
                    }
                    return Err(());
                }
                let ghost s0 = self.table().symbols();
                let ghost a0 = self.table().alias_entries();
                let r1 = self.check_statement(consequence);
                match r1 {
                    Ok(()) => {},
                    Err(()) => return Err(()),
                }
                let ghost s1 = self.table().symbols();
                let ghost a1 = self.table().alias_entries();
                match &**alternate {
                    Some(alt) => {
                        proof {
                            assert(decreases_to!(stmt.node => stmt.node->IfDeclaration_alternate));
                            assert(decreases_to!(*stmt.node->IfDeclaration_alternate => (*stmt.node->IfDeclaration_alternate)->Some_0));
                        }
                        let r = self.check_statement(alt);
                        proof {
                            lemma_extends_trans(s0, s1, self.table().symbols(), old(self).table().scope_depth());
                            lemma_extends_trans(a0, a1, self.table().alias_entries(), old(self).table().scope_depth());
                        }
                        r
                    },
                    None => Ok(()),
                }
            },
            _ => Err(()),
        }
    }

    /// Whether an expression's value is known at compile time: literals,
    /// statics, and operators and indexing over such values; an array literal
    /// only where no sequence is expected; never an assignment.
    pub(crate) fn is_value_static(&self, expr: &Expression, expected_type: Option<&Type>) -> (b: bool)
        ensures
            expr.node is IntegerLiteral || expr.node is FloatLiteral || expr.node is BooleanLiteral
                || expr.node is StringLiteral || expr.node is NilLiteral ==> b,
            expr.node is VariableAssignment || expr.node is IndexAssignment ==> !b,
            expr.node matches Expr::Identifier(name) ==> b == (match resolve_spec(self.table().symbols(), name@) {
                Some(s) => s.is_static,
                None => false,
            }),
            expr.node is ArrayLiteral && (expected_type matches Some(t) && *t is Sequence) ==> !b,
        decreases expr.node,
    {
        match &expr.node {
            Expr::IntegerLiteral(_) | Expr::FloatLiteral(_) | Expr::BooleanLiteral(_) | Expr::StringLiteral(_)
            | Expr::NilLiteral => true,
            Expr::Identifier(name) => {
                let mut temp_errors = ErrorCollector::new();
                match self.symbol_type_table.resolve_identifier(name.as_str(), expr.span, &mut temp_errors) {
                    Ok(symbol) => symbol.is_static(),
                    Err(()) => false,
                }
            },
            Expr::ArrayLiteral { elements } => {
                match expected_type {
                    Some(Type::Sequence(_)) => return false,
                    _ => {},
                }
                let mut k: usize = 0;
                while k < elements.len()
                    invariant
                        0 <= k <= elements@.len(),
                        expr.node is ArrayLiteral,
                        expr.node->ArrayLiteral_elements == *elements,
                    decreases elements@.len() - k,
                {
                    proof {
                        broadcast use vstd::std_specs::vec::axiom_vec_index_decreases;
                        assert(decreases_to!(expr.node => expr.node->ArrayLiteral_elements));
                        assert(decreases_to!(expr.node->ArrayLiteral_elements => expr.node->ArrayLiteral_elements[k as int]));
                        assert(decreases_to!(expr.node => expr.node->ArrayLiteral_elements[k as int].node));
                    }
                    if !self.is_value_static(&elements[k], None) {
                        return false;
                    }
                    k = k + 1;
                }
                true
            },
            Expr::Unary { right, .. } => self.is_value_static(right, None),
            Expr::BinaryOperation { left, right, .. } => self.is_value_static(left, None) && self.is_value_static(right, None),
            Expr::Index { target, property } => self.is_value_static(target, None) && self.is_value_static(property, None),
            Expr::VariableAssignment { .. } | Expr::IndexAssignment { .. } => false,
        }
    }
}

} // verus!
