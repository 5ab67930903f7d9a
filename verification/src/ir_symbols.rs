use vstd::prelude::*;
use crate::errors::{ErrorCollector, VynError};
use crate::span::Span;
use crate::types::Type;

verus! {

/// Where a variable lives while the IR is built.
#[derive(Debug, Clone, Copy, PartialEq, Eq, Structural)]
pub enum SymbolScope {
    Register(u8),
}

/// A variable known to the IR builder.
#[derive(Debug)]
pub struct Symbol {
    pub name: String,
    pub symbol_type: Type,
    pub span: Span,
    pub mutable: bool,
    pub scope: SymbolScope,
}

/// The symbol named `name` in one scope, if any (the first such).
pub open spec fn find_in_scope(scope: Seq<Symbol>, name: Seq<char>) -> Option<Symbol>
    decreases scope.len(),
{
    if scope.len() == 0 {
        None
    } else if scope[0].name@ == name {
        Some(scope[0])
    } else {
        find_in_scope(scope.drop_first(), name)
    }
}

/// The symbol `name` resolves to: innermost scope first.
pub open spec fn resolve_in_scopes(scopes: Seq<Seq<Symbol>>, name: Seq<char>) -> Option<Symbol>
    decreases scopes.len(),
{
    if scopes.len() == 0 {
        None
    } else {
        match find_in_scope(scopes.last(), name) {
            Some(s) => Some(s),
            None => resolve_in_scopes(scopes.drop_last(), name),
        }
    }
}

/// Searching a scope with one more symbol finds what was found before, else
/// the new symbol if it has the name.
pub proof fn lemma_find_after_push(scope: Seq<Symbol>, sym: Symbol, name: Seq<char>)
    ensures
        find_in_scope(scope.push(sym), name) == match find_in_scope(scope, name) {
            Some(found) => Some(found),
            None => if sym.name@ == name { Some(sym) } else { None },
        },
    decreases scope.len(),
{
    let t = scope.push(sym);
    if scope.len() == 0 {
        assert(t.drop_first() =~= Seq::<Symbol>::empty());
    } else {
        assert(t[0] == scope[0]);
        assert(t.drop_first() =~= scope.drop_first().push(sym));
        lemma_find_after_push(scope.drop_first(), sym, name);
    }
}

/// A declaration that succeeds (its name is new to the innermost scope)
/// makes the name resolve to the new symbol and leaves every other name
/// resolving as before.
pub proof fn law_declare_then_resolve(scopes: Seq<Seq<Symbol>>, sym: Symbol, query: Seq<char>)
    requires
        scopes.len() > 0,
        find_in_scope(scopes.last(), sym.name@) is None,
    ensures
        resolve_in_scopes(scopes.update(scopes.len() - 1, scopes.last().push(sym)), query) == if query == sym.name@ {
            Some(sym)
        } else {
            resolve_in_scopes(scopes, query)
        },
{
    let after = scopes.update(scopes.len() - 1, scopes.last().push(sym));
    lemma_find_after_push(scopes.last(), sym, query);
    assert(after.last() == scopes.last().push(sym));
    assert(after.drop_last() =~= scopes.drop_last());
}

/// Scoped variables with the registers that hold them. Leaving a scope
/// gives its registers back.
pub struct SymbolTable {
    pub symbol_scopes: Vec<Vec<Symbol>>,
    scope_depth: usize,
    next_register: u8,
    scope_register_watermarks: Vec<u8>,
}

impl SymbolTable {
    /// The scopes, outermost first, each with its symbols in order.
    pub closed spec fn scopes(&self) -> Seq<Seq<Symbol>> {
        self.symbol_scopes@.map_values(|s: Vec<Symbol>| s@)
    }

    /// The next register `declare_ident` hands out.
    pub closed spec fn next_reg(&self) -> u8 {
        self.next_register
    }

    /// The registers saved on entering each scope, outermost first.
    pub closed spec fn watermarks(&self) -> Seq<u8> {
        self.scope_register_watermarks@
    }

    /// The table's invariant: one scope more than scopes entered, and one
    /// saved register count per scope.
    pub closed spec fn wf(&self) -> bool {
        &&& self.symbol_scopes@.len() == self.scope_depth + 1
        &&& self.scope_register_watermarks@.len() == self.scope_depth + 1
    }

    /// One global scope, no registers used.
    pub fn new() -> (t: SymbolTable)
        ensures
            t.wf(),
            t.scopes() == seq![Seq::<Symbol>::empty()],
            t.next_reg() == 0,
            t.watermarks() == seq![0u8],
    {
        let t = SymbolTable {
            symbol_scopes: vec![Vec::new()],
            scope_depth: 0,
            next_register: 0,
            scope_register_watermarks: vec![0u8],
        };
        proof {
            assert(t.scopes() =~= seq![Seq::<Symbol>::empty()]);
            assert(t.watermarks() =~= seq![0u8]);
        }
        t
    }

    /// The innermost scope.
    fn current_scope(&self) -> (s: &Vec<Symbol>)
        requires
            self.wf(),
        ensures
            s@ == self.scopes().last(),
    {
        &self.symbol_scopes[self.scope_depth]
    }

    /// The position of `name` in the innermost scope, if any.
    fn find_current(&self, name: &String) -> (r: Option<usize>)
        requires
            self.wf(),
        ensures
            r is None <==> find_in_scope(self.scopes().last(), name@) is None,
            r matches Some(i) ==> i < self.scopes().last().len() && find_in_scope(self.scopes().last(), name@)
                == Some(self.scopes().last()[i as int]),
    {
        let scope = self.current_scope();
        let mut i: usize = 0;
        proof {
            assert(scope@.skip(0) =~= scope@);
        }
        while i < scope.len()
            invariant
                0 <= i <= scope@.len(),
                scope@ == self.scopes().last(),
                find_in_scope(scope@, name@) == find_in_scope(scope@.skip(i as int), name@),
            decreases scope@.len() - i,
        {
            proof {
                assert(scope@.skip(i as int).drop_first() =~= scope@.skip(i + 1));
            }
            if scope[i].name.eq(name) {
                proof {
                    assert(scope@.skip(i as int)[0] == scope@[i as int]);
                }
                return Some(i);
            }
            i = i + 1;
        }
        None
    }

    /// Declares `name` in the innermost scope as held in `register`; a name
    /// that scope already has is reported. The next register moves past
    /// `register` (wrapping at 256).
    pub fn declare_ident_with_register(
        &mut self,
        symbol_type: Type,
        name: String,
        mutable: bool,
        register: u8,
        span: Span,
        error_collector: &mut ErrorCollector,
    ) -> (r: Option<()>)
        requires
            old(self).wf(),
        ensures
            final(self).wf(),
            final(self).watermarks() == old(self).watermarks(),
            r is None <==> find_in_scope(old(self).scopes().last(), name@) is Some,
            r is None ==> final(self).scopes() == old(self).scopes() && final(self).next_reg() == old(self).next_reg()
                && final(error_collector).errors@ == old(error_collector).errors@.push(
                VynError::VariableRedeclaration {
                    name,
                    original_span: find_in_scope(old(self).scopes().last(), name@)->Some_0.span,
                    redeclaration_span: span,
                },
            ),
            r is Some ==> final(error_collector).errors@ == old(error_collector).errors@
                && final(self).scopes() == old(self).scopes().update(
                    old(self).scopes().len() - 1,
                    old(self).scopes().last().push(Symbol { name, symbol_type, span, mutable, scope: SymbolScope::Register(register) }),
                )
                && final(self).next_reg() == (if register >= old(self).next_reg() { ((register as int + 1) % 256) as u8 } else { old(self).next_reg() }),
    {
        match self.find_current(&name) {
            Some(i) => {
                let original_span = self.current_scope()[i].span;
                let ghost e0 = error_collector.errors@;
                error_collector.add(VynError::VariableRedeclaration { name, original_span, redeclaration_span: span });
                proof {
                    assert(error_collector.errors@.drop_last() =~= e0);
                }
                return None;
            },
            None => {},
        }
        if register >= self.next_register {
            self.next_register = register.wrapping_add(1);
        }
        self.push_symbol(Symbol { name, symbol_type, span, mutable, scope: SymbolScope::Register(register) });
        Some(())
    }

    /// Declares `name` in the innermost scope in the next free register,
    /// which is returned; a name that scope already has is reported.
    pub fn declare_ident(
        &mut self,
        symbol_type: Type,
        name: String,
        mutable: bool,
        span: Span,
        error_collector: &mut ErrorCollector,
    ) -> (r: Option<u8>)
        requires
            old(self).wf(),
        ensures
            final(self).wf(),
            final(self).watermarks() == old(self).watermarks(),
            r is None <==> find_in_scope(old(self).scopes().last(), name@) is Some,
            r is None ==> final(self).scopes() == old(self).scopes() && final(self).next_reg() == old(self).next_reg()
                && final(error_collector).errors@ == old(error_collector).errors@.push(
                VynError::VariableRedeclaration {
                    name,
                    original_span: find_in_scope(old(self).scopes().last(), name@)->Some_0.span,
                    redeclaration_span: span,
                },
            ),
            r matches Some(reg) ==> reg == old(self).next_reg()
                && final(error_collector).errors@ == old(error_collector).errors@
                && final(self).next_reg() == ((old(self).next_reg() as int + 1) % 256) as u8
                && final(self).scopes() == old(self).scopes().update(
                    old(self).scopes().len() - 1,
                    old(self).scopes().last().push(Symbol { name, symbol_type, span, mutable, scope: SymbolScope::Register(reg) }),
                ),
    {
        match self.find_current(&name) {
            Some(i) => {
                let original_span = self.current_scope()[i].span;
                error_collector.add(VynError::VariableRedeclaration { name, original_span, redeclaration_span: span });
                return None;
            },
            None => {},
        }
        let reg = self.allocate_register();
        self.push_symbol(Symbol { name, symbol_type, span, mutable, scope: SymbolScope::Register(reg) });
        Some(reg)
    }

    fn push_symbol(&mut self, symbol: Symbol)
        requires
            old(self).wf(),
        ensures
            final(self).wf(),
            final(self).next_reg() == old(self).next_reg(),
            final(self).watermarks() == old(self).watermarks(),
            final(self).scopes() == old(self).scopes().update(old(self).scopes().len() - 1, old(self).scopes().last().push(symbol)),
    {
        let d = self.scope_depth;
        let mut scope: Vec<Symbol> = Vec::new();
        std::mem::swap(&mut scope, &mut self.symbol_scopes[d]);
        scope.push(symbol);
        std::mem::swap(&mut scope, &mut self.symbol_scopes[d]);
        proof {
            assert(self.scopes() =~= old(self).scopes().update(old(self).scopes().len() - 1, old(self).scopes().last().push(symbol)));
        }
    }

    /// Opens a scope, saving the next register to restore on leaving it.
    pub fn enter_scope(&mut self)
        requires
            old(self).wf(),
        ensures
            final(self).wf(),
            final(self).scopes() == old(self).scopes().push(Seq::empty()),
            final(self).watermarks() == old(self).watermarks().push(old(self).next_reg()),
            final(self).next_reg() == old(self).next_reg(),
    {
        self.symbol_scopes.push(Vec::new());
        self.scope_depth = self.symbol_scopes.len() - 1;
        self.scope_register_watermarks.push(self.next_register);
        proof {
            assert(self.scopes() =~= old(self).scopes().push(Seq::empty()));
        }
    }

    /// Closes the innermost scope, unless it is the global one, and gives
    /// back the registers it used.
    pub fn exit_scope(&mut self)
        requires
            old(self).wf(),
        ensures
            final(self).wf(),
            old(self).scopes().len() > 1 ==> final(self).scopes() == old(self).scopes().drop_last()
                && final(self).watermarks() == old(self).watermarks().drop_last()
                && final(self).next_reg() == old(self).watermarks().last(),
            old(self).scopes().len() <= 1 ==> final(self).scopes() == old(self).scopes()
                && final(self).next_reg() == old(self).next_reg() && final(self).watermarks() == old(self).watermarks(),
    {
        if self.scope_depth > 0 {
            self.symbol_scopes.pop();
            self.scope_depth = self.scope_depth - 1;
            match self.scope_register_watermarks.pop() {
                Some(watermark) => self.next_register = watermark,
                None => {},
            }
            proof {
                assert(self.scopes() =~= old(self).scopes().drop_last());
            }
        }
    }

    /// Hands out the next register (wrapping at 256).
    pub fn allocate_register(&mut self) -> (reg: u8)
        ensures
            reg == old(self).next_reg(),
            final(self).next_reg() == ((old(self).next_reg() as int + 1) % 256) as u8,
            final(self).scopes() == old(self).scopes(),
            final(self).watermarks() == old(self).watermarks(),
            old(self).wf() ==> final(self).wf(),
    {
        let reg = self.next_register;
        self.next_register = self.next_register.wrapping_add(1);
        reg
    }

    /// The symbol `name` resolves to, innermost scope first; an unknown name
    /// is reported.
    pub fn resolve_symbol(&self, name: &str, resolver_span: Span, error_collector: &mut ErrorCollector) -> (r: Option<&Symbol>)
        requires
            self.wf(),
        ensures
            r matches Some(s) ==> resolve_in_scopes(self.scopes(), name@) == Some(*s)
                && final(error_collector).errors@ == old(error_collector).errors@,
            r is None ==> resolve_in_scopes(self.scopes(), name@) is None
                && final(error_collector).errors@ == old(error_collector).errors@.push(
                    VynError::UndefinedVariable { name: final(error_collector).errors@.last()->UndefinedVariable_name, span: resolver_span })
                && final(error_collector).errors@.last()->UndefinedVariable_name@ == name@,
    {
        let mut k: usize = self.symbol_scopes.len();
        proof {
            assert(self.scopes().subrange(0, k as int) =~= self.scopes());
        }
        while k > 0
            invariant
                0 <= k <= self.scopes().len(),
                self.scopes().len() == self.symbol_scopes@.len(),
                resolve_in_scopes(self.scopes(), name@) == resolve_in_scopes(self.scopes().subrange(0, k as int), name@),
            decreases k,
        {
            let scope = &self.symbol_scopes[k - 1];
            proof {
                let sub = self.scopes().subrange(0, k as int);
                assert(sub.drop_last() =~= self.scopes().subrange(0, k - 1));
                assert(sub.last() == scope@);
            }
            let mut i: usize = 0;
            proof {
                assert(scope@.skip(0) =~= scope@);
            }
            while i < scope.len()
                invariant
                    0 <= i <= scope@.len(),
                    0 < k <= self.scopes().len(),
                    find_in_scope(scope@, name@) == find_in_scope(scope@.skip(i as int), name@),
                    resolve_in_scopes(self.scopes(), name@) == resolve_in_scopes(self.scopes().subrange(0, k as int), name@),
                    self.scopes().subrange(0, k as int).last() == scope@,
                    find_in_scope(scope@, name@) is None ==> resolve_in_scopes(self.scopes(), name@)
                        == resolve_in_scopes(self.scopes().subrange(0, k - 1), name@),
                decreases scope@.len() - i,
            {
                proof {
                    assert(scope@.skip(i as int).drop_first() =~= scope@.skip(i + 1));
                }
                if crate::tokens::str_eq(scope[i].name.as_str(), name) {
                    proof {
                        assert(scope@.skip(i as int)[0] == scope@[i as int]);
                    }
                    return Some(&scope[i]);
                }
                i = i + 1;
            }
            k = k - 1;
        }
        proof {
            assert(self.scopes().subrange(0, 0) =~= Seq::<Seq<Symbol>>::empty());
        }
        error_collector.add(VynError::UndefinedVariable { name: name.to_string(), span: resolver_span });
        None
    }
}

/// Opening a scope and closing it again gives back the scopes, the register
/// marks and the next free register as they were, whatever was declared in
/// between: declarations only touch the innermost scope and the next free
/// register.
pub proof fn law_register_scope_round_trip(
    before: SymbolTable,
    opened: SymbolTable,
    inner: SymbolTable,
    after: SymbolTable,
)
    requires
        before.wf(),
        opened.scopes() == before.scopes().push(Seq::empty()),
        opened.watermarks() == before.watermarks().push(before.next_reg()),
        inner.scopes().len() == opened.scopes().len(),
        inner.scopes().drop_last() == opened.scopes().drop_last(),
        inner.watermarks() == opened.watermarks(),
        after.scopes() == inner.scopes().drop_last(),
        after.watermarks() == inner.watermarks().drop_last(),
        after.next_reg() == inner.watermarks().last(),
    ensures
        after.scopes() == before.scopes(),
        after.watermarks() == before.watermarks(),
        after.next_reg() == before.next_reg(),
{
    assert(before.scopes().push(Seq::empty()).drop_last() =~= before.scopes());
    assert(before.watermarks().push(before.next_reg()).drop_last() =~= before.watermarks());
}

} // verus!
