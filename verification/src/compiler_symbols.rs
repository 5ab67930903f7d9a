use vstd::prelude::*;
use crate::types::Type;

verus! {

/// Where a global symbol lives: its declaration index.
#[derive(Debug, Clone, Copy, PartialEq, Eq, Structural)]
pub enum SymbolScope {
    Global(usize),
}

/// A symbol known to the bytecode compiler.
#[derive(Debug)]
pub struct Symbol {
    pub name: String,
    pub symbol_type: Type,
    pub mutable: bool,
    pub scope: SymbolScope,
}

/// No two symbols share a name.
pub open spec fn names_unique(s: Seq<Symbol>) -> bool {
    forall|i: int, j: int| 0 <= i < j < s.len() ==> (#[trigger] s[i]).name@ != (#[trigger] s[j]).name@
}

/// The symbols by name.
pub open spec fn symbols_map(s: Seq<Symbol>) -> Map<Seq<char>, Symbol> {
    Map::new(
        |k: Seq<char>| exists|i: int| 0 <= i < s.len() && (#[trigger] s[i]).name@ == k,
        |k: Seq<char>| s[choose|i: int| 0 <= i < s.len() && (#[trigger] s[i]).name@ == k],
    )
}

/// Global symbols of the bytecode compiler; each declaration takes the next
/// index.
#[derive(Debug)]
pub struct SymbolTable {
    symbols: Vec<Symbol>,
    collection_count: usize,
}

impl SymbolTable {
    pub closed spec fn wf(&self) -> bool {
        names_unique(self.symbols@)
    }

    /// The declared symbols by name.
    pub closed spec fn view_map(&self) -> Map<Seq<char>, Symbol> {
        symbols_map(self.symbols@)
    }

    /// The number of declarations made so far.
    pub closed spec fn count(&self) -> usize {
        self.collection_count
    }

    pub fn new() -> (t: SymbolTable)
        ensures
            t.wf(),
            t.view_map() == Map::<Seq<char>, Symbol>::empty(),
            t.count() == 0,
    {
        let t = SymbolTable { symbols: Vec::new(), collection_count: 0 };
        proof {
            assert(symbols_map(t.symbols@) =~= Map::<Seq<char>, Symbol>::empty());
        }
        t
    }

    /// Declares `name` (replacing an earlier declaration of it) as global
    /// number `count()`.
    pub fn declare_ident(&mut self, symbol_type: Type, name: String, mutable: bool)
        requires
            old(self).wf(),
            old(self).count() < usize::MAX,
        ensures
            final(self).wf(),
            final(self).count() == old(self).count() + 1,
            final(self).view_map().dom() == old(self).view_map().dom().insert(name@),
            final(self).view_map()[name@] == (Symbol {
                name,
                symbol_type,
                mutable,
                scope: SymbolScope::Global(old(self).count()),
            }),
            forall|k: Seq<char>| k != name@ && #[trigger] old(self).view_map().contains_key(k) ==> final(self).view_map()[k]
                == old(self).view_map()[k],
            final(self).view_map() == old(self).view_map().insert(name@, Symbol {
                name,
                symbol_type,
                mutable,
                scope: SymbolScope::Global(old(self).count()),
            }),
    {
        let ghost old_syms = self.symbols@;
        let sym = Symbol {
            name: name,
            symbol_type,
            mutable,
            scope: SymbolScope::Global(self.collection_count),
        };
        let found = find_name(&self.symbols, sym.name.as_str());
        let ghost pos: int = match found {
            Some(j) => j as int,
            None => old_syms.len() as int,
        };
        match found {
            Some(j) => {
                self.symbols.set(j, sym);
            },
            None => {
                self.symbols.push(sym);
            },
        }
        proof {
            let s = self.symbols@;
            assert(s[pos] == sym);
            assert(names_unique(s)) by {
                assert forall|a: int, b: int| 0 <= a < b < s.len() implies (#[trigger] s[a]).name@ != (#[trigger] s[b]).name@ by {
                    if a != pos && b != pos {
                        assert(s[a] == old_syms[a] && s[b] == old_syms[b]);
                    } else if a == pos {
                        assert(s[b] == old_syms[b]);
                    } else {
                        assert(s[a] == old_syms[a]);
                    }
                }
            }
            assert forall|k: Seq<char>| #[trigger] symbols_map(s).contains_key(k) <==> (symbols_map(old_syms).contains_key(k)
                || k == sym.name@) by {
                if symbols_map(old_syms).contains_key(k) && k != sym.name@ {
                    let j = choose|j: int| 0 <= j < old_syms.len() && (#[trigger] old_syms[j]).name@ == k;
                    assert(j != pos);
                    assert(s[j] == old_syms[j]);
                }
                if symbols_map(s).contains_key(k) && k != sym.name@ {
                    let j = choose|j: int| 0 <= j < s.len() && (#[trigger] s[j]).name@ == k;
                    assert(j != pos);
                    assert(s[j] == old_syms[j]);
                }
            }
            assert(symbols_map(s).dom() =~= symbols_map(old_syms).dom().insert(name@));
            let c = choose|j: int| 0 <= j < s.len() && (#[trigger] s[j]).name@ == sym.name@;
            assert(c == pos);
            assert forall|k: Seq<char>| k != name@ && #[trigger] symbols_map(old_syms).contains_key(k) implies symbols_map(s)[k]
                == symbols_map(old_syms)[k] by {
                let j = choose|j: int| 0 <= j < old_syms.len() && (#[trigger] old_syms[j]).name@ == k;
                assert(j != pos);
                assert(s[j] == old_syms[j]);
                let c1 = choose|j: int| 0 <= j < s.len() && (#[trigger] s[j]).name@ == k;
                assert(c1 == j);
            }
        }
        self.collection_count = self.collection_count + 1;
        proof {
            assert(self.view_map() =~= old(self).view_map().insert(name@, Symbol {
                name,
                symbol_type,
                mutable,
                scope: SymbolScope::Global(old(self).count()),
            }));
        }
    }

    /// The symbol declared under `name`, which must be declared.
    pub fn resolve_symbol(&mut self, name: &str) -> (s: &Symbol)
        requires
            old(self).wf(),
            old(self).view_map().contains_key(name@),
        ensures
            *s == old(self).view_map()[name@],
            *final(self) == *old(self),
    {
        match find_name(&self.symbols, name) {
            Some(j) => {
                proof {
                    let c = choose|k: int| 0 <= k < self.symbols@.len() && (#[trigger] self.symbols@[k]).name@ == name@;
                    assert(c == j);
                }
                &self.symbols[j]
            },
            None => {
                proof {
                    let c = choose|k: int| 0 <= k < self.symbols@.len() && (#[trigger] self.symbols@[k]).name@ == name@;
                    assert(false);
                }
                &self.symbols[0]
            },
        }
    }
}

/// The position of the symbol named `name`, if there is one.
fn find_name(s: &Vec<Symbol>, name: &str) -> (r: Option<usize>)
    ensures
        r matches Some(j) ==> j < s@.len() && s@[j as int].name@ == name@,
        r is None ==> forall|j: int| 0 <= j < s@.len() ==> (#[trigger] s@[j]).name@ != name@,
{
    let mut i: usize = 0;
    while i < s.len()
        invariant
            0 <= i <= s@.len(),
            forall|j: int| 0 <= j < i ==> (#[trigger] s@[j]).name@ != name@,
        decreases s@.len() - i,
    {
        if crate::tokens::str_eq(s[i].name.as_str(), name) {
            return Some(i);
        }
        i = i + 1;
    }
    None
}

impl Default for SymbolTable {
    fn default() -> (t: SymbolTable)
        ensures
            t.wf(),
            t.view_map() == Map::<Seq<char>, Symbol>::empty(),
            t.count() == 0,
    {
        SymbolTable::new()
    }
}

/// The symbol map after declaring each `(type, name, mutable)` of `decls` in
/// turn, the first getting index `count`: each declaration binds its name to
/// a symbol with the next index.
pub open spec fn declare_all(m: Map<Seq<char>, Symbol>, count: nat, decls: Seq<(Type, String, bool)>) -> Map<Seq<char>, Symbol>
    decreases decls.len(),
{
    if decls.len() == 0 {
        m
    } else {
        let d = decls.last();
        declare_all(m, count, decls.drop_last()).insert(d.1@, Symbol {
            name: d.1,
            symbol_type: d.0,
            mutable: d.2,
            scope: SymbolScope::Global((count + decls.len() - 1) as usize),
        })
    }
}

/// After a sequence of declarations a name resolves to its latest
/// declaration `j`, with the index that declaration consumed.
pub proof fn law_declarations_resolve_latest(
    m: Map<Seq<char>, Symbol>,
    count: nat,
    decls: Seq<(Type, String, bool)>,
    j: int,
)
    requires
        0 <= j < decls.len(),
        forall|k: int| j < k < decls.len() ==> (#[trigger] decls[k]).1@ != decls[j].1@,
    ensures
        declare_all(m, count, decls).contains_key(decls[j].1@),
        declare_all(m, count, decls)[decls[j].1@] == (Symbol {
            name: decls[j].1,
            symbol_type: decls[j].0,
            mutable: decls[j].2,
            scope: SymbolScope::Global((count + j) as usize),
        }),
    decreases decls.len(),
{
    let n = decls.len() - 1;
    if j < n {
        let p = decls.drop_last();
        assert(decls[n].1@ != decls[j].1@);
        assert(p[j] == decls[j]);
        assert forall|k: int| j < k < p.len() implies (#[trigger] p[k]).1@ != p[j].1@ by {
            assert(p[k] == decls[k]);
        }
        law_declarations_resolve_latest(m, count, p, j);
    }
}

/// A name no declaration of the sequence binds resolves as before.
pub proof fn law_undeclared_resolves_as_before(
    m: Map<Seq<char>, Symbol>,
    count: nat,
    decls: Seq<(Type, String, bool)>,
    name: Seq<char>,
)
    requires
        forall|i: int| 0 <= i < decls.len() ==> (#[trigger] decls[i]).1@ != name,
    ensures
        declare_all(m, count, decls).contains_key(name) == m.contains_key(name),
        declare_all(m, count, decls)[name] == m[name],
    decreases decls.len(),
{
    if decls.len() > 0 {
        let p = decls.drop_last();
        assert(decls[decls.len() - 1].1@ != name);
        assert forall|i: int| 0 <= i < p.len() implies (#[trigger] p[i]).1@ != name by {
            assert(p[i] == decls[i]);
        }
        law_undeclared_resolves_as_before(m, count, p, name);
    }
}

} // verus!
