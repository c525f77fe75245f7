//! Type inference and checking over the syntax tree.
use vstd::prelude::*;
use crate::ast::Ast;
use crate::lexer::Span;

pub mod ty;
pub mod error;
pub mod env;
pub mod infer;

pub use error::TypeError;
pub use ty::{FnSig, Region, Ty};
use env::{find_key, has_key, type_at, StructInfo};
use infer::{bodies_typed, impl_registered};
use error::is_fatal_error;
use infer::expr::find_last_key;

verus! {

/// What a pass that found no fatal error leaves to its callers.
pub struct InferResult {
    /// Span of each checked expression and block to its inferred type.
    pub type_map: Vec<(Span, Ty)>,
    /// Non-fatal `Deferred` diagnostics: constructs accepted but not fully
    /// checked, which callers should warn about.
    pub deferred: Vec<TypeError>,
    /// The struct declarations, by name.
    pub struct_defs: Vec<(String, StructInfo)>,
    /// The methods of each type, by type name then method name.
    pub impl_sigs: Vec<(String, Vec<(String, (FnSig, Span))>)>,
}

/// The fields of the first struct declared as `name`, if any.
pub open spec fn struct_fields_of(defs: Seq<(String, StructInfo)>, name: Seq<char>) -> Option<Seq<(String, Ty)>> {
    if exists|i: int| 0 <= i < defs.len() && #[trigger] defs[i].0@ == name {
        let i = choose|i: int| 0 <= i < defs.len() && #[trigger] defs[i].0@ == name
            && forall|j: int| 0 <= j < i ==> #[trigger] defs[j].0@ != name;
        Some(defs[i].1.fields@)
    } else {
        None
    }
}

/// The first declaration of a name is the one `struct_fields_of` reads.
pub proof fn lemma_struct_fields_of_first(defs: Seq<(String, StructInfo)>, name: Seq<char>, i: int)
    requires
        0 <= i < defs.len(),
        defs[i].0@ == name,
        forall|j: int| 0 <= j < i ==> #[trigger] defs[j].0@ != name,
    ensures
        struct_fields_of(defs, name) == Some(defs[i].1.fields@),
{
    assert(0 <= i < defs.len() && defs[i].0@ == name && forall|j: int| 0 <= j < i ==> #[trigger] defs[j].0@ != name);
    let c = choose|c: int| 0 <= c < defs.len() && #[trigger] defs[c].0@ == name
        && forall|j: int| 0 <= j < c ==> #[trigger] defs[j].0@ != name;
    if c < i {
        assert(defs[c].0@ != name);
    } else if c > i {
        assert(defs[i].0@ != name);
    }
    assert(c == i);
}

/// A declared struct has a field list to query.
pub proof fn lemma_declared_struct_has_fields(defs: Seq<(String, StructInfo)>, name: Seq<char>)
    requires
        has_key(defs, name),
    ensures
        struct_fields_of(defs, name) is Some,
{
}

/// The position `struct_field_index` gives for a field is where
/// `struct_field_names` lists that field.
pub proof fn lemma_field_index_matches_names(fs: Seq<(String, Ty)>, names: Seq<String>, k: int, field: Seq<char>)
    requires
        names.len() == fs.len(),
        forall|j: int| 0 <= j < fs.len() ==> #[trigger] names[j] == fs[j].0,
        0 <= k < fs.len(),
        fs[k].0@ == field,
    ensures
        names[k]@ == field,
{
}

impl InferResult {
    /// The type inferred for the expression or block at `span`, if it was visited.
    pub fn type_of(&self, span: Span) -> (r: Option<&Ty>)
        ensures
            match r {
                Some(t) => type_at(self.type_map@, span) == Some(t@),
                None => type_at(self.type_map@, span) is None,
            },
    {
        let mut k: usize = self.type_map.len();
        assert(self.type_map@.subrange(0, k as int) =~= self.type_map@);
        while k > 0
            invariant
                k <= self.type_map@.len(),
                type_at(self.type_map@, span) == type_at(self.type_map@.subrange(0, k as int), span),
            decreases k,
        {
            assert(self.type_map@.subrange(0, k as int).drop_last() =~= self.type_map@.subrange(0, k - 1));
            assert(self.type_map@.subrange(0, k as int).last() == self.type_map@[k - 1]);
            if self.type_map[k - 1].0 == span {
                return Some(&self.type_map[k - 1].1);
            }
            k = k - 1;
        }
        None
    }

    /// Whether any construct was accepted without full checking.
    pub fn has_deferred(&self) -> (r: bool)
        ensures
            r == (self.deferred@.len() > 0),
    {
        self.deferred.len() > 0
    }

    /// The position of `field_name` among the fields of `ty_name`, in
    /// declaration order.
    pub fn struct_field_index(&self, ty_name: &String, field_name: &String) -> (r: Option<usize>)
        ensures
            match r {
                Some(k) => struct_fields_of(self.struct_defs@, ty_name@) matches Some(fs)
                    && k < fs.len() && fs[k as int].0@ == field_name@
                    && forall|j: int| 0 <= j < k ==> #[trigger] fs[j].0@ != field_name@,
                None => struct_fields_of(self.struct_defs@, ty_name@) matches Some(fs) ==>
                    forall|j: int| 0 <= j < fs.len() ==> #[trigger] fs[j].0@ != field_name@,
            },
    {
        let i = find_key(&self.struct_defs, ty_name)?;
        proof {
            lemma_struct_fields_of_first(self.struct_defs@, ty_name@, i as int);
        }
        find_key(&self.struct_defs[i].1.fields, field_name)
    }

    /// The resolved type of `field_name` in `ty_name` (its last declaration).
    pub fn struct_field_type(&self, ty_name: &String, field_name: &String) -> (r: Option<&Ty>)
        ensures
            r is Some ==> (struct_fields_of(self.struct_defs@, ty_name@) is Some
                && exists|j: int| 0 <= j < struct_fields_of(self.struct_defs@, ty_name@).unwrap().len()
                    && #[trigger] struct_fields_of(self.struct_defs@, ty_name@).unwrap()[j].0@ == field_name@
                    && struct_fields_of(self.struct_defs@, ty_name@).unwrap()[j].1 == *r.unwrap()),
            r is None ==> (struct_fields_of(self.struct_defs@, ty_name@) matches Some(fs) ==>
                forall|j: int| 0 <= j < fs.len() ==> #[trigger] fs[j].0@ != field_name@),
    {
        let i = match find_key(&self.struct_defs, ty_name) {
            Some(i) => i,
            None => {
                return None;
            },
        };
        proof {
            lemma_struct_fields_of_first(self.struct_defs@, ty_name@, i as int);
        }
        let fields = &self.struct_defs[i].1.fields;
        match find_last_key(fields, field_name) {
            Some(k) => {
                let t = &fields[k].1;
                proof {
                    let fs = struct_fields_of(self.struct_defs@, ty_name@).unwrap();
                    assert(fs == fields@);
                    assert(fs[k as int].0@ == field_name@ && fs[k as int].1 == *t);
                }
                Some(t)
            },
            None => None,
        }
    }

    /// The field names of `ty_name`, in declaration order.
    pub fn struct_field_names(&self, ty_name: &String) -> (r: Option<Vec<String>>)
        ensures
            match r {
                Some(names) => struct_fields_of(self.struct_defs@, ty_name@) matches Some(fs)
                    && names@.len() == fs.len()
                    && forall|j: int| 0 <= j < fs.len() ==> #[trigger] names@[j] == fs[j].0,
                None => struct_fields_of(self.struct_defs@, ty_name@) is None,
            },
    {
        let i = find_key(&self.struct_defs, ty_name)?;
        proof {
            lemma_struct_fields_of_first(self.struct_defs@, ty_name@, i as int);
        }
        Some(infer::expr::keys_of(&self.struct_defs[i].1.fields))
    }
}

/// Runs type inference and checking over a parsed program. `Ok` when no
/// fatal error was found, with the non-fatal `Deferred` diagnostics in
/// `deferred`; otherwise `Err` with the fatal errors, in the order found.
pub fn infer(ast: &Ast) -> (r: Result<InferResult, Vec<TypeError>>)
    ensures
        r matches Ok(res) ==> forall|i: int| 0 <= i < res.deferred@.len() ==> #[trigger] res.deferred@[i] is Deferred,
        r matches Err(errs) ==> errs@.len() > 0 && forall|i: int| 0 <= i < errs@.len() ==> is_fatal_error(#[trigger] errs@[i]),
        r matches Ok(res) ==> forall|j: int| 0 <= j < ast.items@.len() ==>
            (#[trigger] ast.items@[j] matches crate::ast::Item::Struct(d) ==> has_key(res.struct_defs@, d.name@)),
        r matches Ok(res) ==> forall|j: int| 0 <= j < ast.items@.len() ==>
            impl_registered(#[trigger] ast.items@[j], res.impl_sigs@),
        r matches Ok(res) ==> forall|j: int| 0 <= j < ast.items@.len() ==>
            bodies_typed(#[trigger] ast.items@[j], res.type_map@),
        ast.items@.len() == 0 ==> (r matches Ok(res) && res.deferred@.len() == 0),
        infer::empty_fns_program(ast) ==> (r matches Ok(res) && res.deferred@.len() == 0),
        infer::plain_program(ast) ==> infer::plain_program_outcome(ast, r),
{
    infer::run(ast)
}

} // verus!
