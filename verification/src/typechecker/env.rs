//! Scopes of local bindings and the checker's global tables.
use vstd::prelude::*;
use crate::ast::CopyMove;
use crate::lexer::Span;
use crate::text::same_text;
use super::error::{is_fatal_error, TypeError};
use super::ty::{FnSig, Ty, TyV};

verus! {

/// Whether an association list has an entry keyed `key`.
pub open spec fn has_key<V>(v: Seq<(String, V)>, key: Seq<char>) -> bool {
    exists|i: int| 0 <= i < v.len() && #[trigger] v[i].0@ == key
}

/// The index of the first entry keyed `key` (meaningful when there is one).
pub open spec fn first_key_index<V>(v: Seq<(String, V)>, key: Seq<char>) -> int {
    choose|i: int| 0 <= i < v.len() && #[trigger] v[i].0@ == key
        && forall|j: int| 0 <= j < i ==> #[trigger] v[j].0@ != key
}

/// An index keyed `key` with no such key before it is the first one.
pub proof fn lemma_first_key_index<V>(v: Seq<(String, V)>, key: Seq<char>, i: int)
    requires
        0 <= i < v.len(),
        v[i].0@ == key,
        forall|j: int| 0 <= j < i ==> #[trigger] v[j].0@ != key,
    ensures
        first_key_index(v, key) == i,
        has_key(v, key),
{
    let c = first_key_index(v, key);
    if c < i {
        assert(v[c].0@ != key);
    } else if c > i {
        assert(v[i].0@ != key);
    }
}

/// Every key of `old` is still a key of `new`.
pub open spec fn keys_kept<V>(new: Seq<(String, V)>, old: Seq<(String, V)>) -> bool {
    forall|k: Seq<char>| has_key(old, k) ==> #[trigger] has_key(new, k)
}

/// The two lists have the same keys at the same places.
pub open spec fn names_same<V>(new: Seq<(String, V)>, old: Seq<(String, V)>) -> bool {
    &&& new.len() == old.len()
    &&& forall|j: int| 0 <= j < old.len() ==> #[trigger] new[j].0@ == old[j].0@
}

/// Same keys at the same places keep every key.
pub proof fn lemma_names_same_keys_kept<V>(new: Seq<(String, V)>, old: Seq<(String, V)>)
    requires
        names_same(new, old),
    ensures
        keys_kept(new, old),
{
    assert forall|k: Seq<char>| has_key(old, k) implies #[trigger] has_key(new, k) by {
        let i = choose|i: int| 0 <= i < old.len() && #[trigger] old[i].0@ == k;
        assert(new[i].0@ == k);
    }
}

/// Appending keeps every key, and adds the appended one.
pub proof fn lemma_push_keys<V>(old: Seq<(String, V)>, x: (String, V))
    ensures
        keys_kept(old.push(x), old),
        has_key(old.push(x), x.0@),
{
    let new = old.push(x);
    assert(new[old.len() as int] == x);
    assert forall|k: Seq<char>| has_key(old, k) implies #[trigger] has_key(new, k) by {
        let i = choose|i: int| 0 <= i < old.len() && #[trigger] old[i].0@ == k;
        assert(new[i] == old[i]);
    }
}

/// Finds the first entry of an association list keyed `key`.
pub fn find_key<V>(v: &Vec<(String, V)>, key: &String) -> (r: Option<usize>)
    ensures
        match r {
            Some(i) => i < v@.len() && v@[i as int].0@ == key@
                && forall|j: int| 0 <= j < i ==> #[trigger] v@[j].0@ != key@,
            None => forall|j: int| 0 <= j < v@.len() ==> #[trigger] v@[j].0@ != key@,
        },
        r matches Some(i) ==> has_key(v@, key@) && first_key_index(v@, key@) == i,
        r is None ==> !has_key(v@, key@),
{
    let mut i: usize = 0;
    while i < v.len()
        invariant
            i <= v@.len(),
            forall|j: int| 0 <= j < i ==> #[trigger] v@[j].0@ != key@,
        decreases v@.len() - i,
    {
        if same_text(&v[i].0, key) {
            proof {
                lemma_first_key_index(v@, key@, i as int);
            }
            return Some(i);
        }
        i = i + 1;
    }
    None
}

/// The type bound to `name` in one scope: its latest definition there.
pub open spec fn scope_get(s: Seq<(String, Ty)>, name: Seq<char>) -> Option<TyV>
    decreases s.len(),
{
    if s.len() == 0 {
        None
    } else if s.last().0@ == name {
        Some(s.last().1@)
    } else {
        scope_get(s.drop_last(), name)
    }
}

/// The type bound to `name` in a stack of scopes, innermost scope first.
pub open spec fn scopes_get(scopes: Seq<Seq<(String, Ty)>>, name: Seq<char>) -> Option<TyV>
    decreases scopes.len(),
{
    if scopes.len() == 0 {
        None
    } else {
        match scope_get(scopes.last(), name) {
            Some(t) => Some(t),
            None => scopes_get(scopes.drop_last(), name),
        }
    }
}

/// Lexical scope stack: each scope binds variable names to types.
pub struct Env {
    pub scopes: Vec<Vec<(String, Ty)>>,
}

impl Env {
    /// The scopes as sequences, outermost first.
    pub open spec fn frames(&self) -> Seq<Seq<(String, Ty)>> {
        Seq::new(self.scopes@.len(), |i: int| self.scopes@[i]@)
    }

    /// What a lookup of `name` finds.
    pub open spec fn get(&self, name: Seq<char>) -> Option<TyV> {
        scopes_get(self.frames(), name)
    }

    /// One empty scope.
    pub fn new() -> (r: Env)
        ensures
            r.frames() == seq![Seq::<(String, Ty)>::empty()],
    {
        let mut scopes: Vec<Vec<(String, Ty)>> = Vec::new();
        scopes.push(Vec::new());
        let r = Env { scopes };
        assert(r.frames() =~= seq![Seq::<(String, Ty)>::empty()]);
        r
    }

    /// Opens a new innermost scope.
    pub fn push_scope(&mut self)
        ensures
            final(self).frames() == old(self).frames().push(Seq::empty()),
    {
        self.scopes.push(Vec::new());
        assert(self.frames() =~= old(self).frames().push(Seq::empty()));
    }

    /// Closes the innermost scope (if any).
    pub fn pop_scope(&mut self)
        ensures
            old(self).frames().len() > 0 ==> final(self).frames() == old(self).frames().drop_last(),
            old(self).frames().len() == 0 ==> final(self).frames() == old(self).frames(),
    {
        if self.scopes.len() > 0 {
            self.scopes.pop();
            assert(self.frames() =~= old(self).frames().drop_last());
        }
    }

    /// Binds `name` to `ty` in the innermost scope, shadowing earlier bindings.
    pub fn define(&mut self, name: String, ty: Ty)
        requires
            old(self).frames().len() > 0,
        ensures
            final(self).frames() == old(self).frames().update(
                old(self).frames().len() - 1,
                old(self).frames().last().push((name, ty)),
            ),
            final(self).frames().len() == old(self).frames().len(),
    {
        let last = self.scopes.len() - 1;
        let mut scope = self.scopes.remove(last);
        scope.push((name, ty));
        self.scopes.push(scope);
        assert(self.frames() =~= old(self).frames().update(
            old(self).frames().len() - 1,
            old(self).frames().last().push((name, ty)),
        ));
    }

    /// The type bound to `name`, innermost scope first.
    pub fn lookup(&self, name: &String) -> (r: Option<&Ty>)
        ensures
            match r {
                Some(t) => self.get(name@) == Some(t@),
                None => self.get(name@) is None,
            },
    {
        let mut k: usize = self.scopes.len();
        assert(self.frames().subrange(0, k as int) =~= self.frames());
        while k > 0
            invariant
                k <= self.scopes@.len(),
                scopes_get(self.frames(), name@) == scopes_get(self.frames().subrange(0, k as int), name@),
            decreases k,
        {
            let scope = &self.scopes[k - 1];
            assert(self.frames().subrange(0, k as int).last() == scope@);
            let mut j: usize = scope.len();
            assert(scope@.subrange(0, j as int) =~= scope@);
            while j > 0
                invariant
                    j <= scope@.len(),
                    scope_get(scope@, name@) == scope_get(scope@.subrange(0, j as int), name@),
                    0 < k <= self.scopes@.len(),
                    scope == &self.scopes@[k - 1],
                    self.frames().subrange(0, k as int).last() == scope@,
                    scopes_get(self.frames(), name@) == scopes_get(self.frames().subrange(0, k as int), name@),
                decreases j,
            {
                assert(scope@.subrange(0, j as int).drop_last() =~= scope@.subrange(0, j - 1));
                assert(scope@.subrange(0, j as int).last() == scope@[j - 1]);
                if same_text(&scope[j - 1].0, name) {
                    return Some(&scope[j - 1].1);
                }
                j = j - 1;
            }
            assert(scope@.subrange(0, 0) =~= Seq::<(String, Ty)>::empty());
            assert(self.frames().subrange(0, k as int).drop_last() =~= self.frames().subrange(0, k - 1));
            assert(self.frames().subrange(0, k as int).last() == scope@);
            k = k - 1;
        }
        None
    }
}

/// Defining `name` makes a lookup of `name` find exactly the defined type.
pub proof fn lemma_define_then_lookup(frames: Seq<Seq<(String, Ty)>>, name: String, ty: Ty)
    requires
        frames.len() > 0,
    ensures
        scopes_get(frames.update(frames.len() - 1, frames.last().push((name, ty))), name@) == Some(ty@),
{
    let f2 = frames.update(frames.len() - 1, frames.last().push((name, ty)));
    assert(f2.last() == frames.last().push((name, ty)));
}

/// Defining `name` leaves every other name's lookup unchanged.
pub proof fn lemma_define_other_unchanged(frames: Seq<Seq<(String, Ty)>>, name: String, ty: Ty, other: Seq<char>)
    requires
        frames.len() > 0,
        other != name@,
    ensures
        scopes_get(frames.update(frames.len() - 1, frames.last().push((name, ty))), other)
            == scopes_get(frames, other),
{
    let f2 = frames.update(frames.len() - 1, frames.last().push((name, ty)));
    assert(f2.last().drop_last() =~= frames.last());
    assert(f2.drop_last() =~= frames.drop_last());
}

/// Opening a scope hides nothing: every lookup finds what it found before.
pub proof fn lemma_push_scope_transparent(frames: Seq<Seq<(String, Ty)>>, name: Seq<char>)
    ensures
        scopes_get(frames.push(Seq::empty()), name) == scopes_get(frames, name),
{
    assert(frames.push(Seq::empty()).drop_last() =~= frames);
}

/// Closing a scope just opened restores the scopes exactly, whatever was
/// defined in it.
pub proof fn lemma_push_pop_restores(frames: Seq<Seq<(String, Ty)>>, inner: Seq<(String, Ty)>)
    ensures
        frames.push(inner).drop_last() == frames,
{
    assert(frames.push(inner).drop_last() =~= frames);
}

/// A struct declaration after collection.
pub struct StructInfo {
    /// Span of the struct's name, cited by duplicate-declaration errors.
    pub name_span: Span,
    /// Field names and resolved types, in declaration order.
    pub fields: Vec<(String, Ty)>,
    /// Explicit `copy`/`move` modifier; `None` infers Copy-ness from the fields.
    pub copy_override: Option<CopyMove>,
    /// The struct has generic parameters (field access is deferred).
    pub is_generic: bool,
}

/// An enum declaration after collection.
pub struct EnumInfo {
    pub name_span: Span,
    /// Variant names and payload types, in declaration order; an empty
    /// payload is a unit variant.
    pub variants: Vec<(String, Vec<Ty>)>,
    pub copy_override: Option<CopyMove>,
    pub is_generic: bool,
}

/// The checker's global state, threaded through the whole pass.
pub struct InferCtx {
    /// Top-level function signatures with the span of their name.
    pub fn_sigs: Vec<(String, (FnSig, Span))>,
    /// Per-type method namespaces: type name, then method name, signature and span.
    pub impl_sigs: Vec<(String, Vec<(String, (FnSig, Span))>)>,
    pub struct_defs: Vec<(String, StructInfo)>,
    pub enum_defs: Vec<(String, EnumInfo)>,
    /// Variant name to the enums that declare it; more than one makes the
    /// bare variant ambiguous.
    pub variant_to_enum: Vec<(String, Vec<String>)>,
    /// Span to inferred type; the first type recorded for a span stays.
    pub type_map: Vec<(Span, Ty)>,
    /// Errors so far, fatal and non-fatal, in the order found.
    pub errors: Vec<TypeError>,
    /// Declared return types of the functions being checked, innermost last.
    pub current_return_ty: Vec<Ty>,
}

/// `new` holds every error of `old`, in the same places, and maybe more after them.
pub open spec fn extends(new: Seq<TypeError>, old: Seq<TypeError>) -> bool {
    &&& new.len() >= old.len()
    &&& forall|i: int| 0 <= i < old.len() ==> #[trigger] new[i] == old[i]
}

/// The declaration tables and the return-type stack are as they were.
pub open spec fn tables_same(a: &InferCtx, b: &InferCtx) -> bool {
    &&& a.struct_defs@ == b.struct_defs@
    &&& a.enum_defs@ == b.enum_defs@
    &&& a.fn_sigs@ == b.fn_sigs@
    &&& a.impl_sigs@ == b.impl_sigs@
    &&& a.variant_to_enum@ == b.variant_to_enum@
    &&& a.current_return_ty@ == b.current_return_ty@
}

/// Every span typed in `old` keeps its type in `new`.
pub open spec fn map_kept(new: Seq<(Span, Ty)>, old: Seq<(Span, Ty)>) -> bool {
    forall|s: Span| #[trigger] type_at(old, s) is Some ==> type_at(new, s) == type_at(old, s)
}

/// A step of body checking: the tables stay, errors only accumulate, and a
/// type once recorded for a span stays.
pub open spec fn ctx_step(new: &InferCtx, old: &InferCtx) -> bool {
    tables_same(new, old) && extends(new.errors@, old.errors@) && map_kept(new.type_map@, old.type_map@)
}

/// The type recorded for `span`: the latest entry for it.
pub open spec fn type_at(m: Seq<(Span, Ty)>, span: Span) -> Option<TyV>
    decreases m.len(),
{
    if m.len() == 0 {
        None
    } else if m.last().0 == span {
        Some(m.last().1@)
    } else {
        type_at(m.drop_last(), span)
    }
}

/// Whether any error in the list is fatal.
pub open spec fn any_fatal(errs: Seq<TypeError>) -> bool {
    exists|i: int| 0 <= i < errs.len() && is_fatal_error(#[trigger] errs[i])
}

impl InferCtx {
    pub fn new() -> (r: InferCtx)
        ensures
            r.errors@.len() == 0,
            r.type_map@.len() == 0,
            r.fn_sigs@.len() == 0,
            r.struct_defs@.len() == 0,
            r.enum_defs@.len() == 0,
            r.impl_sigs@.len() == 0,
            r.variant_to_enum@.len() == 0,
            r.current_return_ty@.len() == 0,
    {
        InferCtx {
            fn_sigs: Vec::new(),
            impl_sigs: Vec::new(),
            struct_defs: Vec::new(),
            enum_defs: Vec::new(),
            variant_to_enum: Vec::new(),
            type_map: Vec::new(),
            errors: Vec::new(),
            current_return_ty: Vec::new(),
        }
    }

    /// The type recorded for `span`, if any.
    pub fn type_of(&self, span: Span) -> (r: Option<&Ty>)
        ensures
            match r {
                Some(t) => type_at(self.type_map@, span) == Some(t@),
                None => type_at(self.type_map@, span) is None,
            },
    {
        let mut k: usize = self.type_map.len();
        assert(self.type_map@.subrange(0, k as int) =~= self.type_map@);
        while k > 0
            invariant
                k <= self.type_map@.len(),
                type_at(self.type_map@, span) == type_at(self.type_map@.subrange(0, k as int), span),
            decreases k,
        {
            assert(self.type_map@.subrange(0, k as int).drop_last() =~= self.type_map@.subrange(0, k - 1));
            assert(self.type_map@.subrange(0, k as int).last() == self.type_map@[k - 1]);
            if self.type_map[k - 1].0 == span {
                return Some(&self.type_map[k - 1].1);
            }
            k = k - 1;
        }
        None
    }

    /// Records the inferred type of the node at `span`. The first record for
    /// a span stays: a later one for the same span changes nothing.
    pub fn record(&mut self, span: Span, ty: Ty)
        ensures
            final(self).type_map@ == recorded(old(self).type_map@, span, ty),
            final(self).errors@ == old(self).errors@,
            final(self).struct_defs@ == old(self).struct_defs@,
            final(self).enum_defs@ == old(self).enum_defs@,
            final(self).fn_sigs@ == old(self).fn_sigs@,
            final(self).impl_sigs@ == old(self).impl_sigs@,
            final(self).variant_to_enum@ == old(self).variant_to_enum@,
            final(self).current_return_ty@ == old(self).current_return_ty@,
    {
        if self.type_of(span).is_some() {
            return;
        }
        self.type_map.push((span, ty));
    }

    /// Adds an error; checking goes on in every case.
    pub fn error(&mut self, e: TypeError)
        ensures
            final(self).errors@ == old(self).errors@.push(e),
            extends(final(self).errors@, old(self).errors@),
            final(self).type_map@ == old(self).type_map@,
            final(self).struct_defs@ == old(self).struct_defs@,
            final(self).enum_defs@ == old(self).enum_defs@,
            final(self).fn_sigs@ == old(self).fn_sigs@,
            final(self).impl_sigs@ == old(self).impl_sigs@,
            final(self).variant_to_enum@ == old(self).variant_to_enum@,
            final(self).current_return_ty@ == old(self).current_return_ty@,
    {
        self.errors.push(e);
    }

    /// Whether a fatal error has been reported.
    pub fn has_fatal_errors(&self) -> (r: bool)
        ensures
            r == any_fatal(self.errors@),
    {
        let mut i: usize = 0;
        while i < self.errors.len()
            invariant
                i <= self.errors@.len(),
                forall|j: int| 0 <= j < i ==> !is_fatal_error(#[trigger] self.errors@[j]),
            decreases self.errors@.len() - i,
        {
            if self.errors[i].is_fatal() {
                return true;
            }
            i = i + 1;
        }
        false
    }
}

/// The type map after recording `ty` at `span`.
pub open spec fn recorded(m: Seq<(Span, Ty)>, span: Span, ty: Ty) -> Seq<(Span, Ty)> {
    if type_at(m, span) is Some { m } else { m.push((span, ty)) }
}

/// After a record, the span has a type: the one recorded before if there was
/// one, else the new one.
pub proof fn lemma_record_then_type_of(m: Seq<(Span, Ty)>, span: Span, ty: Ty)
    ensures
        type_at(recorded(m, span, ty), span) == (match type_at(m, span) {
            Some(t) => Some(t),
            None => Some(ty@),
        }),
{
}

/// Recording is idempotent per span: a second record of the same span
/// leaves the map as the first record left it.
pub proof fn lemma_record_idempotent(m: Seq<(Span, Ty)>, span: Span, t1: Ty, t2: Ty)
    ensures
        recorded(recorded(m, span, t1), span, t2) == recorded(m, span, t1),
{
}

/// Recording keeps every type recorded before.
pub proof fn lemma_record_keeps(m: Seq<(Span, Ty)>, span: Span, ty: Ty)
    ensures
        map_kept(recorded(m, span, ty), m),
{
    assert forall|s: Span| #[trigger] type_at(m, s) is Some implies type_at(recorded(m, span, ty), s) == type_at(m, s) by {
        if s != span {
            lemma_record_other_unchanged(m, span, ty, s);
        }
    }
}

/// Recording one span leaves the types of all other spans unchanged.
pub proof fn lemma_record_other_unchanged(m: Seq<(Span, Ty)>, span: Span, ty: Ty, other: Span)
    requires
        other != span,
    ensures
        type_at(recorded(m, span, ty), other) == type_at(m, other),
{
    if type_at(m, span) is None {
        assert(m.push((span, ty)).drop_last() =~= m);
    }
}

} // verus!
