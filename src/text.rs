//! Source text services: interned identifiers and source spans.
//!
//! Identifiers are interned into small integer handles. The handle is
//! the key type used by scopes and symbols; the original string is
//! only needed again when a diagnostic message or a name on the
//! semantic tree is produced.
use vstd::prelude::*;
use vstd::string::*;

verus! {

/// Interned identifier handle
///
/// Two identifiers with the same handle in the same interner stand for
/// the same name.
#[derive(Clone, Copy, PartialEq, Eq, Structural, Hash, Debug)]
pub struct Ident(pub usize);

/// A range of positions in the source text
#[derive(Clone, Copy, PartialEq, Eq, Structural, Hash, Debug)]
pub struct Span {
    pub start: usize,
    pub end: usize,
}

/// The span reaching from the start of `a` to the end of `b`.
pub open spec fn enclosing_spec(a: Span, b: Span) -> Span {
    Span { start: a.start, end: b.end }
}

impl Span {
    /// Create a span between two positions
    pub fn new(start: usize, end: usize) -> (r: Span)
        ensures
            r == (Span { start, end }),
    {
        Span { start, end }
    }

    /// Create a span covering the start of `a` through the end of `b`
    pub fn enclosing(a: Span, b: Span) -> (r: Span)
        ensures
            r == enclosing_spec(a, b),
    {
        Span { start: a.start, end: b.end }
    }
}

/// The string that `id` was interned from, or the empty string for a
/// handle this interner never handed out.
pub open spec fn name_of(names: Seq<Seq<char>>, id: Ident) -> Seq<char> {
    if id.0 < names.len() {
        names[id.0 as int]
    } else {
        Seq::empty()
    }
}

/// Interned names are pairwise distinct.
pub open spec fn names_distinct(names: Seq<Seq<char>>) -> bool {
    forall|i: int, j: int| 0 <= i < j < names.len() ==> names[i] != names[j]
}

/// The interner that results from interning `s` into `names`, with the
/// handle that `s` receives.
pub open spec fn intern_spec(names: Seq<Seq<char>>, s: Seq<char>) -> (Seq<Seq<char>>, Ident) {
    if names.contains(s) {
        (names, Ident(choose|i: usize| i < names.len() && names[i as int] == s))
    } else {
        (names.push(s), Ident(names.len() as usize))
    }
}

/// Identifier interner
///
/// Hands out one stable handle per distinct string.
pub struct Interner {
    names: Vec<String>,
}

impl View for Interner {
    type V = Seq<Seq<char>>;

    closed spec fn view(&self) -> Seq<Seq<char>> {
        self.names@.map_values(|s: String| s@)
    }
}

impl Interner {
    /// The interned names are distinct.
    pub open spec fn wf(&self) -> bool {
        names_distinct(self@)
    }

    /// Create an empty interner
    pub fn new() -> (r: Interner)
        ensures
            r@ == Seq::<Seq<char>>::empty(),
            r.wf(),
    {
        let r = Interner { names: Vec::new() };
        assert(r@ =~= Seq::<Seq<char>>::empty());
        r
    }

    /// Intern a string, returning its handle
    ///
    /// A string seen before gets the handle it had then; a new one is
    /// appended and gets the next handle.
    pub fn intern(&mut self, s: &str) -> (r: Ident)
        requires
            old(self).wf(),
        ensures
            final(self).wf(),
            (final(self)@, r) == intern_spec(old(self)@, s@),
            final(self)@[r.0 as int] == s@,
            r.0 < final(self)@.len(),
    {
        let owned = String::from_str(s);
        let n = self.names.len();
        let mut i: usize = 0;
        while i < n
            invariant
                n == self.names.len(),
                self@ == old(self)@,
                self.wf(),
                owned@ == s@,
                i <= n,
                forall|j: int| 0 <= j < i ==> self@[j] != s@,
            decreases n - i,
        {
            if self.names[i] == owned {
                proof {
                    assert(self@[i as int] == s@);
                    assert(self@.contains(s@));
                    let c = choose|k: usize| k < self@.len() && self@[k as int] == s@;
                    assert(c == i) by {
                        if c != i {
                            if c < i {
                                assert(self@[c as int] != self@[i as int]);
                            } else {
                                assert(self@[i as int] != self@[c as int]);
                            }
                        }
                    };
                }
                return Ident(i);
            }
            i = i + 1;
        }
        proof {
            assert(!self@.contains(s@)) by {
                if self@.contains(s@) {
                    let k = choose|k: int| 0 <= k < self@.len() && self@[k] == s@;
                    assert(self@[k] != s@);
                }
            };
        }
        self.names.push(owned);
        proof {
            assert(self@ =~= old(self)@.push(s@));
        }
        Ident(n)
    }

    /// The string an identifier was interned from
    ///
    /// A handle this interner never handed out yields the empty string.
    pub fn value(&self, id: Ident) -> (r: String)
        ensures
            r@ == name_of(self@, id),
    {
        if id.0 < self.names.len() {
            self.names[id.0].clone()
        } else {
            String::new()
        }
    }
}

/// Source Text
///
/// Holds the text of one compilation unit together with the interner
/// for the identifiers found in it.
pub struct SourceText {
    text: String,
    names: Interner,
}

impl View for SourceText {
    type V = Seq<Seq<char>>;

    /// The interned names of this source
    closed spec fn view(&self) -> Seq<Seq<char>> {
        self.names@
    }
}

impl SourceText {
    /// The interned names are distinct.
    pub closed spec fn wf(&self) -> bool {
        self.names.wf()
    }

    /// The source code this text holds
    pub closed spec fn text_spec(&self) -> Seq<char> {
        self.text@
    }

    /// Create a source text over the given code, with no names interned
    pub fn new(text: &str) -> (r: SourceText)
        ensures
            r.wf(),
            r@ == Seq::<Seq<char>>::empty(),
            r.text_spec() == text@,
    {
        SourceText { text: String::from_str(text), names: Interner::new() }
    }

    /// The source code this text holds
    pub fn text(&self) -> (r: &str)
        ensures
            r@ == self.text_spec(),
    {
        self.text.as_str()
    }

    /// Intern a name into this source's interner
    pub fn intern(&mut self, s: &str) -> (r: Ident)
        requires
            old(self).wf(),
        ensures
            final(self).wf(),
            (final(self)@, r) == intern_spec(old(self)@, s@),
            final(self)@[r.0 as int] == s@,
            r.0 < final(self)@.len(),
            final(self).text_spec() == old(self).text_spec(),
    {
        self.names.intern(s)
    }

    /// The string an identifier was interned from
    pub fn interned_value(&self, id: Ident) -> (r: String)
        ensures
            r@ == name_of(self@, id),
    {
        self.names.value(id)
    }
}

} // verus!
