//! Symbols, scopes and the scope stack.
//!
//! A scope maps identifiers to symbols and never overwrites a
//! declaration. The scope stack gives nested lookup: the innermost
//! declaration of a name shadows the outer ones.
use vstd::prelude::*;

use crate::syntax::VarStyle;
use crate::text::Ident;
use crate::text::{intern_spec, SourceText};
use crate::types::{BuiltinType, Typ};

verus! {

/// An item that can be bound to a name in a scope
///
/// Variables and functions share one namespace.
#[derive(PartialEq, Debug)]
pub enum Symbol {
    /// Function argument or local variable
    Variable(VarStyle, Typ),
    /// A function declaration: parameter types and return type
    Function(Vec<Typ>, Typ),
    /// A type
    Type(Typ),
}

/// The meaning of a symbol
pub enum SymbolView {
    Variable(VarStyle, Typ),
    Function(Seq<Typ>, Typ),
    Type(Typ),
}

impl View for Symbol {
    type V = SymbolView;

    open spec fn view(&self) -> SymbolView {
        match self {
            Symbol::Variable(s, t) => SymbolView::Variable(*s, *t),
            Symbol::Function(ps, r) => SymbolView::Function(ps@, *r),
            Symbol::Type(t) => SymbolView::Type(*t),
        }
    }
}

/// The meaning of an optional symbol
pub open spec fn symbol_opt_view(o: Option<Symbol>) -> Option<SymbolView> {
    match o {
        Some(s) => Some(s@),
        None => None,
    }
}

/// A copy of a list of types
fn copy_types(v: &Vec<Typ>) -> (r: Vec<Typ>)
    ensures
        r@ == v@,
{
    let mut r: Vec<Typ> = Vec::new();
    let mut i: usize = 0;
    while i < v.len()
        invariant
            i <= v.len(),
            r@ == v@.take(i as int),
        decreases v.len() - i,
    {
        r.push(v[i]);
        i = i + 1;
        assert(r@ =~= v@.take(i as int));
    }
    assert(v@.take(v.len() as int) =~= v@);
    r
}

impl Symbol {
    /// A copy of this symbol
    pub fn duplicate(&self) -> (r: Symbol)
        ensures
            r@ == self@,
    {
        match self {
            Symbol::Variable(s, t) => Symbol::Variable(*s, *t),
            Symbol::Function(ps, r) => Symbol::Function(copy_types(ps), *r),
            Symbol::Type(t) => Symbol::Type(*t),
        }
    }
}

/// The map that a list of declarations, in order, describes
pub open spec fn entries_map(s: Seq<(Ident, Symbol)>) -> Map<Ident, SymbolView>
    decreases s.len(),
{
    if s.len() == 0 {
        Map::empty()
    } else {
        entries_map(s.drop_last()).insert(s.last().0, s.last().1@)
    }
}

/// No identifier is declared twice in the list.
pub open spec fn keys_distinct(s: Seq<(Ident, Symbol)>) -> bool {
    forall|i: int, j: int| 0 <= i < j < s.len() ==> s[i].0 != s[j].0
}

proof fn lemma_entries_map(s: Seq<(Ident, Symbol)>)
    requires
        keys_distinct(s),
    ensures
        forall|k: Ident|
            entries_map(s).contains_key(k) <==> exists|i: int| 0 <= i < s.len() && s[i].0 == k,
        forall|i: int| 0 <= i < s.len() ==> entries_map(s)[#[trigger] s[i].0] == s[i].1@,
    decreases s.len(),
{
    if s.len() > 0 {
        let p = s.drop_last();
        lemma_entries_map(p);
        assert forall|k: Ident|
            entries_map(s).contains_key(k) <==> exists|i: int| 0 <= i < s.len() && s[i].0 == k by {
            if entries_map(s).contains_key(k) && k != s.last().0 {
                assert(entries_map(p).contains_key(k));
                let i = choose|i: int| 0 <= i < p.len() && p[i].0 == k;
                assert(p[i] == s[i]);
                assert(s[i].0 == k);
            }
            if entries_map(s).contains_key(k) && k == s.last().0 {
                assert(s[s.len() - 1].0 == k);
            }
            if exists|i: int| 0 <= i < s.len() && s[i].0 == k {
                let i = choose|i: int| 0 <= i < s.len() && s[i].0 == k;
                if i < p.len() {
                    assert(p[i] == s[i]);
                    assert(p[i].0 == k);
                    assert(entries_map(p).contains_key(k));
                }
            }
        }
        assert forall|i: int| 0 <= i < s.len() implies entries_map(s)[#[trigger] s[i].0]
            == s[i].1@ by {
            if i < p.len() {
                assert(p[i].0 == s[i].0);
                assert(s[i].0 != s.last().0);
            }
        }
    }
}

/// Declaration Scope
///
/// Holds the items declared at one level of the scope stack. Once a
/// name is declared in a scope it cannot be declared again there.
pub struct Scope {
    /// Symbols declared in this scope, in declaration order
    symbols: Vec<(Ident, Symbol)>,
}

impl View for Scope {
    type V = Map<Ident, SymbolView>;

    closed spec fn view(&self) -> Map<Ident, SymbolView> {
        entries_map(self.symbols@)
    }
}

impl Scope {
    /// No name is declared twice.
    pub closed spec fn wf(&self) -> bool {
        keys_distinct(self.symbols@)
    }

    /// Create an empty scope
    pub fn new() -> (r: Scope)
        ensures
            r.wf(),
            r@ == Map::<Ident, SymbolView>::empty(),
    {
        Scope { symbols: Vec::new() }
    }

    /// Look up the symbol declared for `ident` in this scope
    ///
    /// A copy is returned; the scope itself cannot be changed through
    /// it.
    pub fn lookup(&self, ident: Ident) -> (r: Option<Symbol>)
        requires
            self.wf(),
        ensures
            symbol_opt_view(r) == (if self@.contains_key(ident) {
                Some(self@[ident])
            } else {
                None
            }),
    {
        let n = self.symbols.len();
        let mut i: usize = 0;
        while i < n
            invariant
                n == self.symbols.len(),
                i <= n,
                self.wf(),
                forall|j: int| 0 <= j < i ==> self.symbols@[j].0 != ident,
            decreases n - i,
        {
            if self.symbols[i].0 == ident {
                proof {
                    lemma_entries_map(self.symbols@);
                    assert(self@[self.symbols@[i as int].0] == self.symbols@[i as int].1@);
                }
                return Some(self.symbols[i].1.duplicate());
            }
            i = i + 1;
        }
        proof {
            lemma_entries_map(self.symbols@);
        }
        None
    }

    /// Try to declare a symbol in this scope
    ///
    /// Returns `true` if the symbol was inserted, `false` if the name
    /// was already declared here, in which case nothing changes.
    pub fn try_declare(&mut self, ident: Ident, sym: Symbol) -> (r: bool)
        requires
            old(self).wf(),
        ensures
            final(self).wf(),
            r == !old(self)@.contains_key(ident),
            final(self)@ == declare_once(old(self)@, ident, sym@),
    {
        let n = self.symbols.len();
        let mut i: usize = 0;
        while i < n
            invariant
                n == self.symbols.len(),
                i <= n,
                self.wf(),
                self.symbols@ == old(self).symbols@,
                forall|j: int| 0 <= j < i ==> self.symbols@[j].0 != ident,
            decreases n - i,
        {
            if self.symbols[i].0 == ident {
                proof {
                    lemma_entries_map(self.symbols@);
                    assert(self@.contains_key(self.symbols@[i as int].0));
                }
                return false;
            }
            i = i + 1;
        }
        proof {
            lemma_entries_map(self.symbols@);
        }
        self.symbols.push((ident, sym));
        proof {
            assert(self.symbols@.drop_last() =~= old(self).symbols@);
        }
        true
    }
}

/// Lookup through a stack of scope maps, innermost (last) first
pub open spec fn stack_lookup(st: Seq<Map<Ident, SymbolView>>, id: Ident) -> Option<SymbolView>
    decreases st.len(),
{
    if st.len() == 0 {
        None
    } else if st.last().contains_key(id) {
        Some(st.last()[id])
    } else {
        stack_lookup(st.drop_last(), id)
    }
}

/// The function declarations of one scope map
pub open spec fn functions_of(m: Map<Ident, SymbolView>) -> Map<Ident, SymbolView> {
    Map::new(|k: Ident| m.contains_key(k) && m[k] is Function, |k: Ident| m[k])
}

/// The function declarations visible through a stack of scope maps,
/// where a declaration in an inner scope wins over an outer one
pub open spec fn flatten_functions(st: Seq<Map<Ident, SymbolView>>) -> Map<Ident, SymbolView>
    decreases st.len(),
{
    if st.len() == 0 {
        Map::empty()
    } else {
        functions_of(st[0]).union_prefer_right(flatten_functions(st.subrange(1, st.len() as int)))
    }
}

/// Stack of scopes
///
/// Lookups start at the innermost scope and work outward, so inner
/// declarations shadow outer ones. Only the innermost scope is
/// changed by declarations.
pub struct ScopeStack(Vec<Scope>);

impl View for ScopeStack {
    type V = Seq<Map<Ident, SymbolView>>;

    closed spec fn view(&self) -> Seq<Map<Ident, SymbolView>> {
        self.0@.map_values(|s: Scope| s@)
    }
}

impl ScopeStack {
    /// Every scope on the stack is well formed.
    pub closed spec fn wf(&self) -> bool {
        forall|i: int| 0 <= i < self.0@.len() ==> (#[trigger] self.0@[i]).wf()
    }

    /// Create a new scope stack with the given scope as the base
    pub fn new(base: Scope) -> (r: ScopeStack)
        requires
            base.wf(),
        ensures
            r.wf(),
            r@ == seq![base@],
    {
        let r = ScopeStack(vec![base]);
        assert(r@ =~= seq![base@]);
        r
    }

    /// Look a symbol up in the stack, innermost scope first
    pub fn lookup(&self, id: Ident) -> (r: Option<Symbol>)
        requires
            self.wf(),
        ensures
            symbol_opt_view(r) == stack_lookup(self@, id),
    {
        let mut i: usize = self.0.len();
        assert(self@.take(i as int) =~= self@);
        while i > 0
            invariant
                i <= self.0.len(),
                self.wf(),
                stack_lookup(self@, id) == stack_lookup(self@.take(i as int), id),
            decreases i,
        {
            let found = self.0[i - 1].lookup(id);
            proof {
                let t = self@.take(i as int);
                assert(t.last() == self.0@[i - 1]@);
                assert(t.drop_last() =~= self@.take(i - 1));
            }
            if found.is_some() {
                return found;
            }
            i = i - 1;
        }
        None
    }

    /// The scope at the top of the stack
    ///
    /// Only the innermost scope can be changed while binding.
    pub fn current_mut(&mut self) -> (r: &mut Scope)
        requires
            old(self).wf(),
            old(self)@.len() > 0,
        ensures
            r.wf(),
            r@ == old(self)@.last(),
            final(r).wf() ==> final(self).wf(),
            final(self)@ == old(self)@.update(old(self)@.len() - 1, final(r)@),
    {
        let n = self.0.len();
        assert(self.0@[n - 1].wf());
        let r = self.0.last_mut().unwrap();
        r
    }

    /// Push a new scope on to the stack
    pub fn push(&mut self, scope: Scope)
        requires
            old(self).wf(),
            scope.wf(),
        ensures
            final(self).wf(),
            final(self)@ == old(self)@.push(scope@),
    {
        self.0.push(scope);
        assert(self@ =~= old(self)@.push(scope@));
    }

    /// Pop the innermost scope from the stack
    ///
    /// Returns `None`, changing nothing, if the stack is empty.
    pub fn pop(&mut self) -> (r: Option<Scope>)
        requires
            old(self).wf(),
        ensures
            final(self).wf(),
            old(self)@.len() == 0 ==> r is None && final(self)@ == old(self)@,
            old(self)@.len() > 0 ==> (r matches Some(s) && s.wf() && s@ == old(self)@.last()
                && final(self)@ == old(self)@.drop_last()),
    {
        let r = self.0.pop();
        assert(self@ =~= old(self)@.take(self.0@.len() as int));
        r
    }

    /// Flatten the function declarations of every scope on the stack
    /// into `target`
    ///
    /// Only function symbols are copied: variables and types of the
    /// enclosing scopes stay out of sight. A declaration already in
    /// `target` is kept, and an inner declaration wins over an outer
    /// one.
    pub fn flatten_decls_into(&self, target: &mut Scope)
        requires
            self.wf(),
            old(target).wf(),
        ensures
            final(target).wf(),
            final(target)@ == flatten_functions(self@).union_prefer_right(old(target)@),
    {
        let len = self.0.len();
        let mut i: usize = len;
        assert(flatten_functions(self@.subrange(len as int, len as int)).union_prefer_right(
            old(target)@,
        ) =~= old(target)@);
        while i > 0
            invariant
                len == self.0.len(),
                i <= len,
                self.wf(),
                target.wf(),
                target@ == flatten_functions(self@.subrange(i as int, len as int)).union_prefer_right(
                    old(target)@,
                ),
            decreases i,
        {
            let scope = &self.0[i - 1];
            let n = scope.symbols.len();
            let mut j: usize = 0;
            let ghost prev = target@;
            assert(scope.wf());
            assert(functions_of(entries_map(scope.symbols@.take(0))).union_prefer_right(prev)
                =~= prev);
            while j < n
                invariant
                    n == scope.symbols.len(),
                    j <= n,
                    scope.wf(),
                    target.wf(),
                    target@ == functions_of(entries_map(scope.symbols@.take(j as int))).union_prefer_right(
                        prev,
                    ),
                decreases n - j,
            {
                let entry = &scope.symbols[j];
                let ghost m = entries_map(scope.symbols@.take(j as int));
                proof {
                    let t = scope.symbols@.take(j + 1);
                    assert(t.drop_last() =~= scope.symbols@.take(j as int));
                    assert(t.last() == scope.symbols@[j as int]);
                    lemma_entries_map(scope.symbols@.take(j as int));
                    assert(!m.contains_key(entry.0)) by {
                        if m.contains_key(entry.0) {
                            let k = choose|k: int|
                                0 <= k < j && scope.symbols@.take(j as int)[k].0 == entry.0;
                            assert(scope.symbols@[k].0 == scope.symbols@[j as int].0);
                        }
                    };
                }
                match &entry.1 {
                    Symbol::Function(..) => {
                        target.try_declare(entry.0, entry.1.duplicate());
                        proof {
                            assert(functions_of(entries_map(scope.symbols@.take(j + 1))) =~= functions_of(
                                m,
                            ).insert(entry.0, entry.1@));
                            assert(target@ =~= functions_of(
                                entries_map(scope.symbols@.take(j + 1)),
                            ).union_prefer_right(prev));
                        }
                    },
                    _ => {
                        proof {
                            assert(functions_of(entries_map(scope.symbols@.take(j + 1)))
                                =~= functions_of(m));
                        }
                    },
                }
                j = j + 1;
            }
            proof {
                assert(scope.symbols@.take(n as int) =~= scope.symbols@);
                let sub = self@.subrange(i - 1, len as int);
                assert(sub[0] == scope@);
                assert(sub.subrange(1, sub.len() as int) =~= self@.subrange(i as int, len as int));
                assert(target@ =~= flatten_functions(sub).union_prefer_right(old(target)@));
            }
            i = i - 1;
        }
        assert(self@.subrange(0, len as int) =~= self@);
    }
}

/// Add the builtin type declarations
///
/// Declares `String`, `Bool` and `Number` in `scope` as the builtin
/// types, interning their names in `source`.
pub fn add_builtin_types(scope: &mut Scope, source: &mut SourceText)
    requires
        old(scope).wf(),
        old(source).wf(),
    ensures
        final(scope).wf(),
        final(source).wf(),
        final(source)@ == builtin_names(old(source)@).0,
        final(scope)@ == with_builtin_types(old(scope)@, builtin_names(old(source)@)),
{
    let s = source.intern("String");
    let b = source.intern("Bool");
    let n = source.intern("Number");
    scope.try_declare(s, Symbol::Type(Typ::Builtin(BuiltinType::String)));
    scope.try_declare(b, Symbol::Type(Typ::Builtin(BuiltinType::Bool)));
    scope.try_declare(n, Symbol::Type(Typ::Builtin(BuiltinType::Number)));
}

/// The interner after the builtin type names are interned into
/// `names`, with the handles of `String`, `Bool` and `Number`
pub open spec fn builtin_names(names: Seq<Seq<char>>) -> (Seq<Seq<char>>, Ident, Ident, Ident) {
    let (n1, s) = intern_spec(names, "String"@);
    let (n2, b) = intern_spec(n1, "Bool"@);
    let (n3, n) = intern_spec(n2, "Number"@);
    (n3, s, b, n)
}

/// Declare `name` as `sym` unless the scope already declares it
pub open spec fn declare_once(m: Map<Ident, SymbolView>, name: Ident, sym: SymbolView) -> Map<
    Ident,
    SymbolView,
> {
    if m.contains_key(name) {
        m
    } else {
        m.insert(name, sym)
    }
}

/// A scope map with the builtin types declared under the given handles
pub open spec fn with_builtin_types(
    m: Map<Ident, SymbolView>,
    ids: (Seq<Seq<char>>, Ident, Ident, Ident),
) -> Map<Ident, SymbolView> {
    let m1 = declare_once(m, ids.1, SymbolView::Type(Typ::Builtin(BuiltinType::String)));
    let m2 = declare_once(m1, ids.2, SymbolView::Type(Typ::Builtin(BuiltinType::Bool)));
    declare_once(m2, ids.3, SymbolView::Type(Typ::Builtin(BuiltinType::Number)))
}

} // verus!
