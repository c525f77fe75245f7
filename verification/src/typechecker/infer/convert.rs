//! From written types (`ast::Type`) to resolved types (`Ty`).
use vstd::prelude::*;
use crate::ast::{RefRegion, Type};
use crate::lexer::Span;
use crate::text::{same_text, text_is};
use super::super::env::{find_key, has_key, InferCtx};
use super::super::ty::{Region, Ty, TyV};
use super::{defer, extends, tables_same};

verus! {

/// The primitive a type name denotes, if it is one.
pub open spec fn prim_ty(name: Seq<char>) -> Option<TyV> {
    if name == "i32"@ { Some(TyV::I32) }
    else if name == "f64"@ { Some(TyV::F64) }
    else if name == "bool"@ { Some(TyV::Bool) }
    else if name == "char"@ { Some(TyV::Char) }
    else if name == "str"@ { Some(TyV::Str) }
    else if name == "unit"@ { Some(TyV::Unit) }
    else { None }
}

fn prim_of(name: &String) -> (r: Option<Ty>)
    ensures
        match r {
            Some(t) => prim_ty(name@) == Some(t@),
            None => prim_ty(name@) is None,
        },
{
    proof {
        reveal_strlit("i32");
        reveal_strlit("f64");
        reveal_strlit("bool");
        reveal_strlit("char");
        reveal_strlit("str");
        reveal_strlit("unit");
    }
    if text_is(name, "i32") { Some(Ty::I32) }
    else if text_is(name, "f64") { Some(Ty::F64) }
    else if text_is(name, "bool") { Some(Ty::Bool) }
    else if text_is(name, "char") { Some(Ty::Char) }
    else if text_is(name, "str") { Some(Ty::Str) }
    else if text_is(name, "unit") { Some(Ty::Unit) }
    else { None }
}

/// Whether `name` is one of the generic parameters in scope.
#[verifier::loop_isolation(false)]
pub fn contains_name(names: &Vec<String>, name: &String) -> (r: bool)
    ensures
        r == exists|i: int| 0 <= i < names@.len() && #[trigger] names@[i]@ == name@,
{
    let mut i: usize = 0;
    while i < names.len()
        invariant
            i <= names@.len(),
            forall|j: int| 0 <= j < i ==> #[trigger] names@[j]@ != name@,
        decreases names@.len() - i,
    {
        if same_text(&names[i], name) {
            return true;
        }
        i = i + 1;
    }
    false
}

/// Resolves a written type: primitives by name, generic parameters, declared
/// structs and enums by name, references structurally, and `Self` to the
/// enclosing `impl` type. Anything else (an unknown name, a generic
/// instantiation, `Self` outside an `impl`) is reported as deferred and
/// yields `Ty::Error`.
pub fn ast_ty_to_ty(ty: &Type, generic_params: &Vec<String>, impl_name: Option<&String>, span: Span, ctx: &mut InferCtx) -> (r: Ty)
    ensures
        tables_same(final(ctx), old(ctx)),
        final(ctx).type_map@ == old(ctx).type_map@,
        extends(final(ctx).errors@, old(ctx).errors@),
        *ty matches Type::Named { name, args, .. } ==> (args@.len() == 0 && prim_ty(name@) is Some ==>
            (r@ == prim_ty(name@).unwrap() && final(ctx).errors@ == old(ctx).errors@)),
        *ty matches Type::Named { args, .. } ==> (args@.len() > 0 ==> r is Error),
        *ty matches Type::Named { name, args, .. } ==> ((args@.len() == 0 && prim_ty(name@) is None) ==>
            if exists|i: int| 0 <= i < generic_params@.len() && #[trigger] generic_params@[i]@ == name@ {
                r@ == TyV::Param(name@) && final(ctx).errors@ == old(ctx).errors@
            } else if has_key(old(ctx).struct_defs@, name@) || has_key(old(ctx).enum_defs@, name@) {
                r@ == TyV::Named(name@) && final(ctx).errors@ == old(ctx).errors@
            } else {
                r is Error && final(ctx).errors@.len() == old(ctx).errors@.len() + 1 && final(ctx).errors@.last() is Deferred
            }),
        *ty is SelfTy ==> (impl_name matches Some(n) ==> r@ == TyV::Named(n@)),
        *ty is SelfTy ==> (impl_name is None ==> r is Error),
        *ty matches Type::Ref { mutable, .. } ==> (r matches Ty::Ref { mutable: m, .. } && m == mutable),
    decreases ty,
{
    match ty {
        Type::Named { name, args, .. } => {
            if args.len() == 0 {
                if let Some(p) = prim_of(name) {
                    return p;
                }
                if contains_name(generic_params, name) {
                    return Ty::Param(name.clone());
                }
                if find_key(&ctx.struct_defs, name).is_some() || find_key(&ctx.enum_defs, name).is_some() {
                    return Ty::Named(name.clone());
                }
                return defer(ctx, "user-defined type — struct/enum design pending", span);
            }
            defer(ctx, "generic type instantiation", span)
        },
        Type::Ref { mutable, region, inner, .. } => {
            let inner_ty = ast_ty_to_ty(inner, generic_params, impl_name, span, ctx);
            let region = match region {
                Some(g) => Some(ast_region_to_region(g)),
                None => None,
            };
            Ty::Ref { mutable: *mutable, region, inner: Box::new(inner_ty) }
        },
        Type::SelfTy(self_span) => {
            match impl_name {
                Some(n) => Ty::Named(n.clone()),
                None => defer(ctx, "Self type — requires impl block design", *self_span),
            }
        },
    }
}

/// The region a written region tag denotes.
pub fn ast_region_to_region(r: &RefRegion) -> (g: Region)
    ensures
        *r matches RefRegion::Named(n) ==> g == Region::Named(n),
        *r is Static ==> g is Static,
{
    match r {
        RefRegion::Named(name) => Region::Named(name.clone()),
        RefRegion::Static => Region::Static,
    }
}

} // verus!
