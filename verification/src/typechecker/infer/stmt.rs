//! Inference of statements.
use vstd::prelude::*;
use crate::ast::{Expr, Stmt, Type};
use crate::lexer::Span;
use crate::text::push_str;
use super::super::env::{Env, InferCtx};
use super::super::error::TypeError;
use super::super::ty::{Ty, TyV};
use super::{check_tail_field_own_non_copy, check_types, ctx_step, expr_reports, may_move_field, return_checked};
use super::convert::prim_ty;
use super::expr::{known_ty, one_more};
use super::ops::{binary_result, is_arith, is_bitwise};

verus! {

/// The name a statement binds in the innermost scope: that of a `let` or a
/// `const`.
pub open spec fn stmt_binds(stmt: Stmt) -> Option<Seq<char>> {
    match stmt {
        Stmt::Let { name, .. } => Some(name@),
        Stmt::Const { name, .. } => Some(name@),
        _ => None,
    }
}

/// The type a primitive annotation (`i32`, `bool`, ...) names.
pub open spec fn prim_annotation(t: Type) -> Option<TyV> {
    match t {
        Type::Named { name, args, .. } => if args@.len() == 0 { prim_ty(name@) } else { None },
        _ => None,
    }
}

/// What binding a name of annotated type `p` to a value of type `t`
/// reports: a mismatch at `span` when they differ (unless `t` is in error).
pub open spec fn annotation_checked(p: TyV, t: TyV, span: Span, old_errs: Seq<TypeError>, new_errs: Seq<TypeError>) -> bool {
    if p != t && t != TyV::Error {
        &&& one_more(new_errs, old_errs)
        &&& new_errs.last() matches TypeError::Mismatch { expected, found, span: s, .. }
        &&& expected@ == p && found@ == t && s == span
    } else {
        new_errs == old_errs
    }
}

/// What a statement reports and binds when the types it relies on need no
/// inference (names bound in `env`, literals, primitive annotations): the
/// binding's type, annotation and return mismatches, writes through a shared
/// reference, and plain and compound assignment.
pub open spec fn stmt_outcome(
    env: &Env,
    stmt: Stmt,
    return_ty: Ty,
    old_errs: Seq<TypeError>,
    new_errs: Seq<TypeError>,
    bound: TyV,
) -> bool {
    match stmt {
        Stmt::Let { ty, init, span, .. } => known_ty(env, *init) matches Some(t) ==> match ty {
            None => bound == t && new_errs == old_errs,
            Some(a) => prim_annotation(a) matches Some(p) ==> (bound == p && annotation_checked(p, t, span, old_errs, new_errs)),
        },
        Stmt::Const { ty, init, span, .. } => known_ty(env, *init) matches Some(t) ==> (prim_annotation(ty) matches Some(p)
            ==> (bound == p && annotation_checked(p, t, span, old_errs, new_errs))),
        Stmt::Return { value, span } => (match value {
            Some(v) => known_ty(env, *v),
            None => Some(TyV::Unit),
        }) matches Some(t) ==> if t != TyV::Error && !(return_ty is Error) && t != return_ty@ {
            &&& one_more(new_errs, old_errs)
            &&& new_errs.last() matches TypeError::ReturnMismatch { expected, found, span: s, .. }
            &&& expected == return_ty && found@ == t && s == span
        } else {
            new_errs == old_errs
        },
        Stmt::Assign { target, op, value, span } => {
            &&& *target matches Expr::Field { object, field, span: fspan, .. } ==> (known_ty(env, *object) matches Some(ot) ==>
                (ot matches TyV::Ref { mutable, .. } && !mutable ==> (new_errs.len() > old_errs.len()
                    && (new_errs[old_errs.len() as int] matches TypeError::FieldWriteViaSharedRef { field_name, span: s, .. }
                        && field_name@ == field@ && s == fspan))))
            &&& !(*target is Field) ==> (known_ty(env, *target) matches Some(a) ==> (known_ty(env, *value) matches Some(b) ==>
                match op {
                    None => if a != TyV::Error && b != TyV::Error && a != b {
                        &&& one_more(new_errs, old_errs)
                        &&& new_errs.last() matches TypeError::Mismatch { expected, found, span: s, .. }
                        &&& expected@ == a && found@ == b && s == span
                    } else {
                        new_errs == old_errs
                    },
                    Some(o) => if a != TyV::Error && b != TyV::Error && (is_arith(o) || is_bitwise(o))
                        && binary_result(o, a, b) == TyV::Error {
                        one_more(new_errs, old_errs) && new_errs.last() is Mismatch
                    } else {
                        new_errs == old_errs
                    },
                }))
        },
        _ => true,
    }
}

/// What a `let`, `return` or expression statement binds (`bound`) and
/// reports (`errs`), in terms of what inferring its expression yields and
/// reports: the expression's type is bound (or the annotation, checked
/// against it), returned (checked against `return_ty`), or discarded.
pub open spec fn stmt_reports(ctx: &InferCtx, env: &Env, stmt: Stmt, return_ty: TyV, bound: TyV, errs: Seq<TypeError>) -> bool {
    match stmt {
        Stmt::Let { ty, init, span, .. } => !may_move_field(*init) ==> exists|t: Ty, mid: Seq<TypeError>| {
            &&& #[trigger] expr_reports(ctx, env, *init, t, mid)
            &&& match ty {
                None => bound == t@ && errs == mid,
                Some(a) => prim_annotation(a) matches Some(p) ==> (bound == p && annotation_checked(p, t@, span, mid, errs)),
            }
        },
        Stmt::Return { value: Some(v), span } => !may_move_field(*v) ==> exists|t: Ty, mid: Seq<TypeError>| {
            &&& #[trigger] expr_reports(ctx, env, *v, t, mid)
            &&& return_checked(mid, t, return_ty, span, errs)
        },
        Stmt::Expr { expr, .. } => exists|t: Ty| #[trigger] expr_reports(ctx, env, *expr, t, errs),
        _ => true,
    }
}

/// Checks one statement of a block whose function returns `return_ty`;
/// `let` and `const` bind their name in the innermost scope.
#[verifier::rlimit(60)]
#[verifier::spinoff_prover]
pub fn infer_stmt(stmt: &Stmt, return_ty: &Ty, ctx: &mut InferCtx, env: &mut Env)
    requires
        old(env).frames().len() > 0,
    ensures
        ctx_step(final(ctx), old(ctx)),
        final(env).frames().len() == old(env).frames().len(),
        final(env).frames().drop_last() == old(env).frames().drop_last(),
        stmt_binds(*stmt) matches Some(n) ==> {
            &&& final(env).frames().last().len() == old(env).frames().last().len() + 1
            &&& final(env).frames().last().drop_last() == old(env).frames().last()
            &&& final(env).frames().last().last().0@ == n
        },
        stmt_binds(*stmt) is None ==> final(env).frames() == old(env).frames(),
        (*stmt is Break || *stmt is Continue) ==> *final(ctx) == *old(ctx),
        stmt_outcome(old(env), *stmt, *return_ty, old(ctx).errors@, final(ctx).errors@,
            final(env).frames().last().last().1@),
        stmt_reports(old(ctx), old(env), *stmt, return_ty@, final(env).frames().last().last().1@, final(ctx).errors@),
    decreases stmt, 3nat,
{
    match stmt {
        Stmt::Let { name, ty, init, span, .. } => {
            let init_ty = super::expr::infer_expr(init, ctx, env);
            let ghost mid = ctx.errors@;
            proof {
                assert(expr_reports(old(ctx), old(env), **init, init_ty, mid));
            }
            // A non-Copy field moved out through the initializer's value positions.
            if check_tail_field_own_non_copy(init, ctx) {
                env.define(name.clone(), Ty::Error);
                proof {
                    assert(env.frames().drop_last() =~= old(env).frames().drop_last());
                }
                return;
            }
            let binding_ty = match ty {
                Some(ann) => {
                    let no_params: Vec<String> = Vec::new();
                    let ann_ty = super::convert::ast_ty_to_ty(ann, &no_params, None, *span, ctx);
                    let mut sugg = String::new();
                    push_str(&mut sugg, "variable `");
                    push_str(&mut sugg, name.as_str());
                    push_str(&mut sugg, "` is annotated as `");
                    ann_ty.push_debug(&mut sugg);
                    push_str(&mut sugg, "` but the initializer has type `");
                    init_ty.push_debug(&mut sugg);
                    push_str(&mut sugg, "` — change the annotation or the initializer");
                    let ghost before = ctx.errors@;
                    check_types(&ann_ty, &init_ty, *span, ctx, Some(sugg));
                    proof {
                        if ctx.errors@.len() > before.len() {
                            assert(ctx.errors@.drop_last() =~= before);
                        }
                    }
                    proof {
                        if prim_annotation(*ann) is Some {
                            reveal_with_fuel(super::super::ty::ty_view, 1);
                            assert(annotation_checked(prim_annotation(*ann)->0, init_ty@, *span, mid, ctx.errors@));
                        }
                    }
                    ann_ty
                },
                None => init_ty,
            };
            let ghost bt = binding_ty;
            env.define(name.clone(), binding_ty);
            proof {
                assert(env.frames().drop_last() =~= old(env).frames().drop_last());
                assert(env.frames().last().last().1 == bt);
                if !may_move_field(**init) {
                    assert(expr_reports(old(ctx), old(env), **init, init_ty, mid));
                }
            }
        },
        Stmt::Const { name, ty, init, span, .. } => {
            let no_params: Vec<String> = Vec::new();
            let ann_ty = super::convert::ast_ty_to_ty(ty, &no_params, None, *span, ctx);
            let init_ty = super::expr::infer_expr(init, ctx, env);
            let mut sugg = String::new();
            push_str(&mut sugg, "constant `");
            push_str(&mut sugg, name.as_str());
            push_str(&mut sugg, "` is annotated as `");
            ann_ty.push_debug(&mut sugg);
            push_str(&mut sugg, "` but the initializer has type `");
            init_ty.push_debug(&mut sugg);
            push_str(&mut sugg, "` — change the annotation or the initializer");
            let ghost before = ctx.errors@;
            check_types(&ann_ty, &init_ty, *span, ctx, Some(sugg));
            proof {
                if ctx.errors@.len() > before.len() {
                    assert(ctx.errors@.drop_last() =~= before);
                }
            }
            env.define(name.clone(), ann_ty);
            proof {
                assert(env.frames().drop_last() =~= old(env).frames().drop_last());
            }
        },
        Stmt::Return { value, span } => {
            let ret_ty = match value {
                Some(e) => super::expr::infer_expr(e, ctx, env),
                None => Ty::Unit,
            };
            let ghost mid = ctx.errors@;
            let ghost rt = ret_ty;
            proof {
                if value is Some {
                    assert(expr_reports(old(ctx), old(env), *value->0, rt, mid));
                }
            }
            if let Some(e) = value {
                if check_tail_field_own_non_copy(e, ctx) {
                    return;
                }
            }
            if !ret_ty.is_error() && !return_ty.is_error() && !ret_ty.same(return_ty) {
                let mut sugg = String::new();
                push_str(&mut sugg, "function expects `");
                return_ty.push_debug(&mut sugg);
                push_str(&mut sugg, "` — adjust the return expression or the function signature");
                let ghost before = ctx.errors@;
                ctx.error(TypeError::ReturnMismatch {
                    expected: return_ty.dup(),
                    found: ret_ty,
                    span: *span,
                    suggestion: Some(sugg),
                });
                proof {
                    assert(ctx.errors@.drop_last() =~= before);
                    reveal_with_fuel(super::super::ty::ty_view, 1);
                    if value is Some {
                        assert(expr_reports(old(ctx), old(env), *value->0, rt, mid));
                    }
                }
            } else {
                proof {
                    reveal_with_fuel(super::super::ty::ty_view, 1);
                    if value is Some {
                        assert(expr_reports(old(ctx), old(env), *value->0, rt, mid));
                    }
                }
            }
        },
        Stmt::Assign { target, op, value, span } => {
            // Writing a field through `&T` is rejected before anything else.
            if let Expr::Field { object, field, span: field_span, .. } = &**target {
                let obj_ty = super::expr::infer_expr(object, ctx, env);
                if let Ty::Ref { mutable: false, inner, .. } = &obj_ty {
                    let ty_name = match &**inner {
                        Ty::Named(n) => n.clone(),
                        t => t.text(),
                    };
                    ctx.error(TypeError::FieldWriteViaSharedRef {
                        ty_name,
                        field_name: field.clone(),
                        span: *field_span,
                    });
                    super::expr::infer_expr(value, ctx, env);
                    return;
                }
            }
            let target_ty = super::expr::infer_expr(target, ctx, env);
            let value_ty = super::expr::infer_expr(value, ctx, env);
            match op {
                None => {
                    let mut sugg = String::new();
                    push_str(&mut sugg, "assignment: left-hand side has type `");
                    target_ty.push_debug(&mut sugg);
                    push_str(&mut sugg, "`, right-hand side has type `");
                    value_ty.push_debug(&mut sugg);
                    push_str(&mut sugg, "` — they must match");
                    let ghost before = ctx.errors@;
                    check_types(&target_ty, &value_ty, *span, ctx, Some(sugg));
                    proof {
                        if ctx.errors@.len() > before.len() {
                            assert(ctx.errors@.drop_last() =~= before);
                        }
                    }
                },
                Some(bin_op) => {
                    super::ops::check_binary_op_types(*bin_op, &target_ty, &value_ty, *span, ctx);
                },
            }
        },
        Stmt::Expr { expr, .. } => {
            // The value is discarded; only its own checks matter.
            let t = super::expr::infer_expr(expr, ctx, env);
            proof {
                assert(expr_reports(old(ctx), old(env), **expr, t, ctx.errors@));
            }
        },
        // `break` and `continue` carry no type information yet.
        Stmt::Break { .. } | Stmt::Continue { .. } => {},
    }
}

} // verus!
