//! The typing rules of the unary and binary operators.
use vstd::prelude::*;
use crate::ast::{BinOp, Expr, Literal, UnaryOp};
use crate::lexer::Span;
use crate::text::owned;
use super::super::env::{lemma_record_keeps, Env, InferCtx};
use super::super::error::TypeError;
use super::super::ty::{Ty, TyV};
use super::{ctx_step, decls_same, defer, expr_reports, extends, same_lookup, tables_same};
use super::expr::{known_ty, one_more};

verus! {

pub open spec fn is_arith(op: BinOp) -> bool {
    op is Add || op is Sub || op is Mul || op is Div || op is Mod
}

pub open spec fn is_bitwise(op: BinOp) -> bool {
    op is BitAnd || op is BitOr || op is BitXor || op is Shl || op is Shr
}

pub open spec fn is_comparison(op: BinOp) -> bool {
    op is Eq || op is Ne || op is Lt || op is Gt || op is Le || op is Ge
}

pub open spec fn is_logical(op: BinOp) -> bool {
    op is And || op is Or
}

/// The type a binary operator yields on operands of types `l` and `r`, or
/// `Error` when they do not fit it: arithmetic on two `i32` or two `f64`,
/// bitwise on two `i32`, comparison on two equal types, logic on two `bool`.
pub open spec fn binary_result(op: BinOp, l: TyV, r: TyV) -> TyV {
    if is_arith(op) {
        if l == TyV::I32 && r == TyV::I32 { TyV::I32 }
        else if l == TyV::F64 && r == TyV::F64 { TyV::F64 }
        else { TyV::Error }
    } else if is_bitwise(op) {
        if l == TyV::I32 && r == TyV::I32 { TyV::I32 } else { TyV::Error }
    } else if is_comparison(op) {
        if l == r { TyV::Bool } else { TyV::Error }
    } else if is_logical(op) {
        if l == TyV::Bool && r == TyV::Bool { TyV::Bool } else { TyV::Error }
    } else {
        TyV::Error
    }
}

/// The type a prefix operator yields on an operand of type `t`, or `Error`.
pub open spec fn unary_result(op: UnaryOp, t: TyV) -> TyV {
    if t == TyV::Error {
        TyV::Error
    } else {
        match op {
            UnaryOp::Neg => if t == TyV::I32 || t == TyV::F64 { t } else { TyV::Error },
            UnaryOp::Not => if t == TyV::Bool { t } else { TyV::Error },
            UnaryOp::BitNot => if t == TyV::I32 { t } else { TyV::Error },
            UnaryOp::Borrow => TyV::Ref { mutable: false, region: None, inner: Box::new(t) },
            UnaryOp::BorrowMut => TyV::Ref { mutable: true, region: None, inner: Box::new(t) },
        }
    }
}

/// The errors a typing rule adds: none when its input was already in error
/// or it succeeds, else exactly one mismatch.
pub open spec fn rule_errors(input_error: bool, r: Ty, old_errs: Seq<TypeError>, new_errs: Seq<TypeError>) -> bool {
    &&& (input_error || !(r is Error)) ==> new_errs == old_errs
    &&& (!input_error && r is Error) ==> (one_more(new_errs, old_errs) && new_errs.last() is Mismatch)
}

/// What a prefix-operator expression yields and reports: an out-of-range
/// literal under `-` (other than `-2147483648`) is reported as such; on an
/// operand whose type needs no inference the operator's rule decides.
pub open spec fn unary_outcome(env: &Env, expr: Expr, r: Ty, old_errs: Seq<TypeError>, new_errs: Seq<TypeError>) -> bool {
    expr matches Expr::Unary { op, expr: operand, .. } ==> {
        &&& op is Neg ==> (*operand matches Expr::Literal(Literal::Integer(n), ls) ==> (n > 2147483648 ==>
            (r is Error && new_errs == old_errs.push(TypeError::IntegerOutOfRange { value: n, span: ls }))))
        &&& known_ty(env, *operand) matches Some(t) ==> (r@ == unary_result(op, t)
            && rule_errors(t == TyV::Error, r, old_errs, new_errs))
    }
}

/// A prefix operator on a computed operand: the operand is inferred (as
/// `infer_expr` states it), then the operator's rule applies to its type.
/// (`-2147483648` is the one literal read as a whole.)
pub open spec fn unary_operand_outcome(ctx: &InferCtx, env: &Env, expr: Expr, r: Ty, errs: Seq<TypeError>) -> bool {
    expr matches Expr::Unary { op, expr: operand, .. } ==> (
        !(op is Neg && (*operand matches Expr::Literal(Literal::Integer(n), _) && n == 2147483648)) ==>
        exists|t: Ty, e1: Env, mid: Seq<TypeError>| {
            &&& same_lookup(&e1, env) && #[trigger] expr_reports(ctx, &e1, *operand, t, mid)
            &&& r@ == unary_result(op, t@) && rule_errors(t is Error, r, mid, errs)
        })
}

/// A binary operator on computed operands: the left operand is inferred (as
/// `infer_expr` states it), then the right one, then the operator's rule
/// applies to their types; nothing more when one is in error.
pub open spec fn binary_operands_outcome(ctx: &InferCtx, env: &Env, expr: Expr, r: Ty, errs: Seq<TypeError>) -> bool {
    expr matches Expr::Binary { op, left, right, .. } ==> (!(op is Fallback) ==>
        exists|lt: Ty, rt: Ty, s1: Seq<TypeError>, s2: Seq<TypeError>, c2: InferCtx, e1: Env, e2: Env| {
            &&& same_lookup(&e1, env) && #[trigger] expr_reports(ctx, &e1, *left, lt, s1)
            &&& decls_same(&c2, ctx) && c2.errors@ == s1 && same_lookup(&e2, env)
            &&& #[trigger] expr_reports(&c2, &e2, *right, rt, s2)
            &&& if lt is Error || rt is Error {
                r is Error && errs == s2
            } else {
                r@ == binary_result(op, lt@, rt@) && rule_errors(false, r, s2, errs)
            }
        })
}

/// What a binary-operator expression yields and reports on operands whose
/// types need no inference: nothing more when one is in error, else the
/// operator's rule.
pub open spec fn binary_outcome(env: &Env, expr: Expr, r: Ty, old_errs: Seq<TypeError>, new_errs: Seq<TypeError>) -> bool {
    expr matches Expr::Binary { op, left, right, .. } ==> (!(op is Fallback) ==>
        (known_ty(env, *left) matches Some(lt) ==> (known_ty(env, *right) matches Some(rt) ==>
            if lt == TyV::Error || rt == TyV::Error {
                r is Error && new_errs == old_errs
            } else {
                r@ == binary_result(op, lt, rt) && rule_errors(false, r, old_errs, new_errs)
            })))
}

/// Checks a compound assignment `target op= value` on already-inferred
/// operand types: arithmetic ops need two equal numeric types, bitwise ops
/// two `i32`; nothing is reported when either side is `Ty::Error`.
pub fn check_binary_op_types(op: BinOp, lhs_ty: &Ty, rhs_ty: &Ty, span: Span, ctx: &mut InferCtx)
    ensures
        tables_same(final(ctx), old(ctx)),
        final(ctx).type_map@ == old(ctx).type_map@,
        extends(final(ctx).errors@, old(ctx).errors@),
        (*lhs_ty is Error || *rhs_ty is Error || !(is_arith(op) || is_bitwise(op))
            || binary_result(op, lhs_ty@, rhs_ty@) != TyV::Error) ==> final(ctx).errors@ == old(ctx).errors@,
        !(*lhs_ty is Error || *rhs_ty is Error || !(is_arith(op) || is_bitwise(op))
            || binary_result(op, lhs_ty@, rhs_ty@) != TyV::Error) ==>
            (final(ctx).errors@.len() == old(ctx).errors@.len() + 1 && final(ctx).errors@.last() is Mismatch
                && final(ctx).errors@.drop_last() == old(ctx).errors@
                && (final(ctx).errors@.last() matches TypeError::Mismatch { expected, found, span: s, .. } && s == span
                    && (is_arith(op) ==> (expected == *lhs_ty && found == *rhs_ty))
                    && (is_bitwise(op) ==> (expected is I32
                        && found == (if *lhs_ty is I32 { *rhs_ty } else { *lhs_ty }))))),
{
    if lhs_ty.is_error() || rhs_ty.is_error() {
        return;
    }
    match op {
        BinOp::Add | BinOp::Sub | BinOp::Mul | BinOp::Div | BinOp::Mod => {
            match (lhs_ty, rhs_ty) {
                (Ty::I32, Ty::I32) | (Ty::F64, Ty::F64) => {},
                _ => {
                    ctx.error(TypeError::Mismatch {
                        expected: lhs_ty.dup(),
                        found: rhs_ty.dup(),
                        span,
                        suggestion: Some(owned("compound arithmetic assignment requires both sides to be the same numeric type (`i32` or `f64`)")),
                    });
                    proof { assert(ctx.errors@.drop_last() =~= old(ctx).errors@); }
                },
            }
        },
        BinOp::BitAnd | BinOp::BitOr | BinOp::BitXor | BinOp::Shl | BinOp::Shr => {
            match (lhs_ty, rhs_ty) {
                (Ty::I32, Ty::I32) => {},
                _ => {
                    let found = if !matches!(lhs_ty, Ty::I32) { lhs_ty.dup() } else { rhs_ty.dup() };
                    ctx.error(TypeError::Mismatch {
                        expected: Ty::I32,
                        found,
                        span,
                        suggestion: Some(owned("compound bitwise assignment requires `i32` operands")),
                    });
                    proof { assert(ctx.errors@.drop_last() =~= old(ctx).errors@); }
                },
            }
        },
        // Only arithmetic and bitwise operators form compound assignments.
        _ => {},
    }
}

/// The typing rule of a prefix operator on an inferred operand type;
/// reports a mismatch when the operand does not fit (but not on `Ty::Error`).
pub fn unary_rule(op: UnaryOp, operand_ty: Ty, span: Span, ctx: &mut InferCtx) -> (r: Ty)
    ensures
        r@ == unary_result(op, operand_ty@),
        tables_same(final(ctx), old(ctx)),
        final(ctx).type_map@ == old(ctx).type_map@,
        extends(final(ctx).errors@, old(ctx).errors@),
        (operand_ty is Error || !(r is Error)) ==> final(ctx).errors@ == old(ctx).errors@,
        (!(operand_ty is Error) && r is Error) ==> (final(ctx).errors@.len() == old(ctx).errors@.len() + 1
            && final(ctx).errors@.last() is Mismatch && final(ctx).errors@.drop_last() == old(ctx).errors@),
{
    if operand_ty.is_error() {
        return Ty::Error;
    }
    match op {
        UnaryOp::Neg => match operand_ty {
            Ty::I32 => Ty::I32,
            Ty::F64 => Ty::F64,
            other => {
                ctx.error(TypeError::Mismatch {
                    expected: Ty::I32,
                    found: other,
                    span,
                    suggestion: Some(owned("unary `-` requires a numeric type (`i32` or `f64`)")),
                });
                proof { assert(ctx.errors@.drop_last() =~= old(ctx).errors@); }
                Ty::Error
            },
        },
        UnaryOp::Not => match operand_ty {
            Ty::Bool => Ty::Bool,
            other => {
                ctx.error(TypeError::Mismatch {
                    expected: Ty::Bool,
                    found: other,
                    span,
                    suggestion: Some(owned("unary `!` requires a `bool` operand")),
                });
                proof { assert(ctx.errors@.drop_last() =~= old(ctx).errors@); }
                Ty::Error
            },
        },
        UnaryOp::BitNot => match operand_ty {
            Ty::I32 => Ty::I32,
            other => {
                ctx.error(TypeError::Mismatch {
                    expected: Ty::I32,
                    found: other,
                    span,
                    suggestion: Some(owned("unary `~` requires an `i32` operand")),
                });
                proof { assert(ctx.errors@.drop_last() =~= old(ctx).errors@); }
                Ty::Error
            },
        },
        UnaryOp::Borrow => Ty::Ref { mutable: false, region: None, inner: Box::new(operand_ty) },
        UnaryOp::BorrowMut => Ty::Ref { mutable: true, region: None, inner: Box::new(operand_ty) },
    }
}

/// The typing rule of a binary operator (other than `?:`) on inferred,
/// non-error operand types; reports a mismatch when they do not fit.
pub fn binary_rule(op: BinOp, lhs: Ty, rhs: Ty, span: Span, ctx: &mut InferCtx) -> (r: Ty)
    requires
        !(op is Fallback),
        !(lhs is Error),
        !(rhs is Error),
    ensures
        r@ == binary_result(op, lhs@, rhs@),
        tables_same(final(ctx), old(ctx)),
        final(ctx).type_map@ == old(ctx).type_map@,
        extends(final(ctx).errors@, old(ctx).errors@),
        !(r is Error) ==> final(ctx).errors@ == old(ctx).errors@,
        r is Error ==> (final(ctx).errors@.len() == old(ctx).errors@.len() + 1
            && final(ctx).errors@.last() is Mismatch && final(ctx).errors@.drop_last() == old(ctx).errors@),
{
    match op {
        BinOp::Add | BinOp::Sub | BinOp::Mul | BinOp::Div | BinOp::Mod => {
            match (&lhs, &rhs) {
                (Ty::I32, Ty::I32) => Ty::I32,
                (Ty::F64, Ty::F64) => Ty::F64,
                _ => {
                    ctx.error(TypeError::Mismatch {
                        expected: lhs,
                        found: rhs,
                        span,
                        suggestion: Some(owned("arithmetic operators require both operands to be the same numeric type (`i32` or `f64`)")),
                    });
                    proof { assert(ctx.errors@.drop_last() =~= old(ctx).errors@); }
                    Ty::Error
                },
            }
        },
        BinOp::BitAnd | BinOp::BitOr | BinOp::BitXor | BinOp::Shl | BinOp::Shr => {
            match (&lhs, &rhs) {
                (Ty::I32, Ty::I32) => Ty::I32,
                _ => {
                    let found = if !matches!(lhs, Ty::I32) { lhs } else { rhs };
                    ctx.error(TypeError::Mismatch {
                        expected: Ty::I32,
                        found,
                        span,
                        suggestion: Some(owned("bitwise operators require `i32` operands")),
                    });
                    proof { assert(ctx.errors@.drop_last() =~= old(ctx).errors@); }
                    Ty::Error
                },
            }
        },
        BinOp::Eq | BinOp::Ne | BinOp::Lt | BinOp::Gt | BinOp::Le | BinOp::Ge => {
            if lhs.same(&rhs) {
                Ty::Bool
            } else {
                ctx.error(TypeError::Mismatch {
                    expected: lhs,
                    found: rhs,
                    span,
                    suggestion: Some(owned("comparison operators require both operands to have the same type")),
                });
                proof { assert(ctx.errors@.drop_last() =~= old(ctx).errors@); }
                Ty::Error
            }
        },
        BinOp::And | BinOp::Or => {
            match (&lhs, &rhs) {
                (Ty::Bool, Ty::Bool) => Ty::Bool,
                _ => {
                    let bad = if !matches!(lhs, Ty::Bool) { lhs } else { rhs };
                    ctx.error(TypeError::Mismatch {
                        expected: Ty::Bool,
                        found: bad,
                        span,
                        suggestion: Some(owned("logical `&&` / `||` require `bool` operands")),
                    });
                    proof { assert(ctx.errors@.drop_last() =~= old(ctx).errors@); }
                    Ty::Error
                },
            }
        },
        BinOp::Fallback => Ty::Error,
    }
}

/// Infers a prefix-operator expression. `-2147483648` is `i32::MIN`: its
/// literal alone would be out of range, so under negation it is read whole.
pub fn infer_unary(expr: &Expr, ctx: &mut InferCtx, env: &mut Env) -> (r: Ty)
    requires
        old(env).frames().len() > 0,
    ensures
        ctx_step(final(ctx), old(ctx)),
        final(env).frames() == old(env).frames(),
        *expr matches Expr::Unary { op, expr: operand, .. } ==> {
            &&& op is Neg ==> (*operand matches Expr::Literal(Literal::Integer(n), _) ==> (n == 2147483648
                ==> (r is I32 && final(ctx).errors@ == old(ctx).errors@)))
            &&& op is Neg ==> (r is I32 || r is F64 || r is Error)
            &&& op is Not ==> (r is Bool || r is Error)
            &&& op is BitNot ==> (r is I32 || r is Error)
            &&& op is Borrow ==> (r matches Ty::Ref { mutable: false, region: None, .. } || r is Error)
            &&& op is BorrowMut ==> (r matches Ty::Ref { mutable: true, region: None, .. } || r is Error)
        },
        unary_outcome(old(env), *expr, r, old(ctx).errors@, final(ctx).errors@),
        unary_operand_outcome(old(ctx), old(env), *expr, r, final(ctx).errors@),
    decreases expr, 1nat,
{
    match expr {
        Expr::Unary { op, expr: operand, span } => {
            if let UnaryOp::Neg = op {
                if let Expr::Literal(Literal::Integer(n), lit_span) = &**operand {
                    if *n == 2147483648i64 {
                        proof { lemma_record_keeps(ctx.type_map@, *lit_span, Ty::I32); }
                        ctx.record(*lit_span, Ty::I32);
                        return Ty::I32;
                    }
                }
            }
            let ghost e0 = *env;
            let operand_ty = super::expr::infer_expr(operand, ctx, env);
            let ghost mid = ctx.errors@;
            let ghost e1 = *env;
            proof {
                assert(same_lookup(&e1, &e0));
                assert(expr_reports(old(ctx), &e0, **operand, operand_ty, mid));
            }
            let ghost ot = operand_ty;
            let r = unary_rule(*op, operand_ty, *span, ctx);
            proof {
                reveal_with_fuel(super::super::ty::ty_view, 1);
                assert(expr_reports(old(ctx), &e0, **operand, ot, mid));
            }
            r
        },
        _ => Ty::Error,
    }
}

/// Infers a binary-operator expression: both operands, then the operator's
/// rule; `?:` is deferred, and an operand already in error yields
/// `Ty::Error` with nothing more reported.
pub fn infer_binary(expr: &Expr, ctx: &mut InferCtx, env: &mut Env) -> (r: Ty)
    requires
        old(env).frames().len() > 0,
    ensures
        ctx_step(final(ctx), old(ctx)),
        final(env).frames() == old(env).frames(),
        *expr matches Expr::Binary { op, .. } ==> {
            &&& op is Fallback ==> (r is Error && final(ctx).errors@.last() is Deferred)
            &&& is_arith(op) ==> (r is I32 || r is F64 || r is Error)
            &&& is_bitwise(op) ==> (r is I32 || r is Error)
            &&& (is_comparison(op) || is_logical(op)) ==> (r is Bool || r is Error)
        },
        binary_outcome(old(env), *expr, r, old(ctx).errors@, final(ctx).errors@),
        binary_operands_outcome(old(ctx), old(env), *expr, r, final(ctx).errors@),
    decreases expr, 1nat,
{
    match expr {
        Expr::Binary { op, left, right, span } => {
            if let BinOp::Fallback = op {
                return defer(ctx, "`?:` operator — requires Option<T> design", *span);
            }
            let ghost e0 = *env;
            let lhs = super::expr::infer_expr(left, ctx, env);
            let ghost s1 = ctx.errors@;
            let ghost c2 = *ctx;
            let ghost e2 = *env;
            let rhs = super::expr::infer_expr(right, ctx, env);
            let ghost s2 = ctx.errors@;
            let ghost lt = lhs;
            let ghost rt = rhs;
            proof {
                assert(same_lookup(&e2, &e0));
                assert(expr_reports(old(ctx), &e0, **left, lt, s1));
                assert(expr_reports(&c2, &e2, **right, rt, s2));
            }
            if lhs.is_error() || rhs.is_error() {
                return Ty::Error;
            }
            let r = binary_rule(*op, lhs, rhs, *span, ctx);
            proof {
                assert(expr_reports(old(ctx), &e0, **left, lt, s1));
                assert(expr_reports(&c2, &e2, **right, rt, s2));
            }
            r
        },
        _ => Ty::Error,
    }
}

} // verus!
