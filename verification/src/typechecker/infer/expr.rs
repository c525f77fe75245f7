//! Inference of expressions.
use vstd::prelude::*;
use crate::ast::{Block, Expr, Literal, StructFieldInit};
use crate::lexer::Span;
use crate::text::{dec_text, owned, push_str, push_usize};
use vstd::string::StrSliceExecFns;
use super::super::env::{find_key, first_key_index, has_key, lemma_push_keys, lemma_record_keeps, lemma_record_then_type_of, type_at, Env, InferCtx};
use super::super::error::TypeError;
use super::super::ty::{dup_tys, ty_debug, ty_view, FnSig, Region, RegionV, Ty, TyV};
use super::{body_value, check_tail_field_own_non_copy, check_types, ctx_step, decls_same, defer, dup_strings, expr_reports, extends, infer_block, may_move_field, same_lookup, tables_same};

verus! {

/// The type of a literal: string literals are `&static str`.
pub open spec fn literal_ty(lit: Literal) -> TyV {
    match lit {
        Literal::Integer(_) => TyV::I32,
        Literal::Float(_) => TyV::F64,
        Literal::Bool(_) => TyV::Bool,
        Literal::Char(_) => TyV::Char,
        Literal::Str(_) => TyV::Ref { mutable: false, region: Some(RegionV::Static), inner: Box::new(TyV::Str) },
    }
}

/// Each kind of literal has the type that the annotation of its kind names:
/// an integer is an `i32`, a float an `f64`, `true` and `false` are `bool`,
/// a character is a `char`, and a string a `&'static str`.
pub proof fn law_literal_types(lit: Literal)
    ensures
        lit is Integer ==> Some(literal_ty(lit)) == super::convert::prim_ty("i32"@),
        lit is Float ==> Some(literal_ty(lit)) == super::convert::prim_ty("f64"@),
        lit is Bool ==> Some(literal_ty(lit)) == super::convert::prim_ty("bool"@),
        lit is Char ==> Some(literal_ty(lit)) == super::convert::prim_ty("char"@),
        lit is Str ==> literal_ty(lit) == (TyV::Ref { mutable: false, region: Some(RegionV::Static),
            inner: Box::new(super::convert::prim_ty("str"@).unwrap()) }),
{
    reveal_strlit("i32");
    reveal_strlit("f64");
    reveal_strlit("bool");
    reveal_strlit("char");
    reveal_strlit("str");
    assert("f64"@[0] != "i32"@[0]);
    assert("bool"@.len() != "i32"@.len() && "bool"@.len() != "f64"@.len());
    assert("char"@.len() != "i32"@.len() && "char"@.len() != "f64"@.len() && "char"@[0] != "bool"@[0]);
    assert("str"@[0] != "i32"@[0] && "str"@[0] != "f64"@[0]);
    assert("str"@.len() != "bool"@.len() && "str"@.len() != "char"@.len());
}

/// A literal's inferred type: its own type, with no error, unless it is an
/// integer too large for `i32`.
pub open spec fn literal_inferred(expr: Expr, r: Ty, old_errs: Seq<TypeError>, new_errs: Seq<TypeError>) -> bool {
    expr matches Expr::Literal(lit, _) ==> (!(lit matches Literal::Integer(n) && n > 2147483647)
        ==> (r@ == literal_ty(lit) && new_errs == old_errs))
}

/// The type of an expression that needs no inference work: a name bound in
/// the environment, or a literal (an integer one only within `i32`).
pub open spec fn known_ty(env: &Env, e: Expr) -> Option<TyV> {
    match e {
        Expr::Ident(n, _) => env.get(n@),
        Expr::Literal(lit, _) => if lit matches Literal::Integer(n) && n > 2147483647 {
            None
        } else {
            Some(literal_ty(lit))
        },
        _ => None,
    }
}

/// `new` is `old` with exactly one more error at its end.
pub open spec fn one_more(new: Seq<TypeError>, old: Seq<TypeError>) -> bool {
    new.len() == old.len() + 1 && new.drop_last() == old
}

/// What a name in expression position yields and reports: a local binding's
/// type; else a function's declared return type; else a bare variant, which
/// must belong to exactly one enum and be a unit variant of it (a generic
/// enum is deferred); anything else is an undefined variable.
pub open spec fn ident_outcome(ctx: &InferCtx, env: &Env, name: Seq<char>, span: Span, r: Ty, new_errs: Seq<TypeError>) -> bool {
    let old_errs = ctx.errors@;
    let sigs = ctx.fn_sigs@;
    let vte = ctx.variant_to_enum@;
    let owners = vte[first_key_index(vte, name)].1@;
    let e = owners[0]@;
    let defs = ctx.enum_defs@;
    let info = defs[first_key_index(defs, e)].1;
    let vs = info.variants@;
    let undefined = r is Error && one_more(new_errs, old_errs)
        && (new_errs.last() matches TypeError::UndefinedVariable { name: m, span: s, .. } && m@ == name && s == span);
    if env.get(name) is Some {
        r@ == env.get(name)->0 && new_errs == old_errs
    } else if has_key(sigs, name) {
        r == sigs[first_key_index(sigs, name)].1.0.return_ty && new_errs == old_errs
    } else if has_key(vte, name) && owners.len() > 1 {
        &&& r is Error
        &&& one_more(new_errs, old_errs)
        &&& new_errs.last() matches TypeError::AmbiguousVariant { variant_name: b, defined_in, span: s }
        &&& b@ == name && defined_in@ == owners && s == span
    } else if has_key(vte, name) && owners.len() == 1 && has_key(defs, e) {
        if info.is_generic {
            r is Error && one_more(new_errs, old_errs) && new_errs.last() is Deferred
        } else if has_key(vs, name) {
            if vs[first_key_index(vs, name)].1@.len() == 0 {
                r@ == TyV::Named(e) && new_errs == old_errs
            } else {
                &&& r is Error
                &&& one_more(new_errs, old_errs)
                &&& new_errs.last() matches TypeError::TupleVariantUsedAsUnit { enum_name: a, variant_name: b, span: s }
                &&& a@ == e && b@ == name && s == span
            }
        } else {
            undefined
        }
    } else {
        undefined
    }
}

/// A condition whose type needs no inference and is not `bool` (nor in
/// error) is reported first, at the span of the whole `if` or `while`.
pub open spec fn cond_reported(env: &Env, cond: Expr, span: Span, old_errs: Seq<TypeError>, new_errs: Seq<TypeError>) -> bool {
    known_ty(env, cond) matches Some(t) ==> ((t != TyV::Bool && t != TyV::Error) ==> (new_errs.len() > old_errs.len()
        && (new_errs[old_errs.len() as int] matches TypeError::NonBoolCondition { found, span: s } && found@ == t && s == span)))
}

/// The condition check of an `if` or `while`.
pub open spec fn condition_checked(env: &Env, expr: Expr, old_errs: Seq<TypeError>, new_errs: Seq<TypeError>) -> bool {
    match expr {
        Expr::If { condition, span, .. } => cond_reported(env, *condition, span, old_errs, new_errs),
        Expr::While { condition, span, .. } => cond_reported(env, *condition, span, old_errs, new_errs),
        _ => true,
    }
}

/// The type of a block with no statements whose value is a literal (or
/// that has no value: unit).
pub open spec fn block_value_ty(b: Block) -> Option<TyV> {
    if b.stmts@.len() == 0 {
        match b.tail {
            None => Some(TyV::Unit),
            Some(t) => super::pattern::lit_ty(*t),
        }
    } else {
        None
    }
}

/// An `if` with an `else` whose two blocks have types that need no inference:
/// the `then` type, or a branch mismatch when the types differ.
pub open spec fn branches_checked(expr: Expr, r: Ty, new_errs: Seq<TypeError>) -> bool {
    match expr {
        Expr::If { then_block, else_branch: Some(e), span, .. } => block_value_ty(*then_block) matches Some(a) ==>
            ((*e matches Expr::Block(eb) && block_value_ty(*eb) is Some) ==> {
                let b = match *e { Expr::Block(eb) => block_value_ty(*eb)->0, _ => TyV::Error };
                if a != b {
                    &&& r is Error
                    &&& new_errs.last() matches TypeError::BranchMismatch { then, else_, span: s }
                    &&& then@ == a && else_@ == b && s == span
                } else {
                    r@ == a
                }
            }),
        _ => true,
    }
}

/// What an expression yields and reports, where that follows from the
/// expression and the environment alone: known-typed operands, literals,
/// names, conditions and operators.
pub open spec fn expr_outcome(ctx: &InferCtx, env: &Env, expr: Expr, r: Ty, new_errs: Seq<TypeError>) -> bool {
    &&& known_ty(env, expr) matches Some(t) ==> (r@ == t && new_errs == ctx.errors@)
    &&& expr matches Expr::Literal(Literal::Integer(n), s) ==> (n > 2147483647 ==>
        (r is Error && new_errs == ctx.errors@.push(TypeError::IntegerOutOfRange { value: n, span: s })))
    &&& expr matches Expr::Ident(name, span) ==> ident_outcome(ctx, env, name@, span, r, new_errs)
    &&& condition_checked(env, expr, ctx.errors@, new_errs)
    &&& expr matches Expr::Block(b) ==> (block_value_ty(*b) matches Some(v) ==> (r@ == v && new_errs == ctx.errors@))
    &&& branches_checked(expr, r, new_errs)
    &&& super::ops::unary_outcome(env, expr, r, ctx.errors@, new_errs)
    &&& super::ops::binary_outcome(env, expr, r, ctx.errors@, new_errs)
}

/// The arguments of a call or method call (none for other expressions).
pub open spec fn call_args(expr: Expr) -> Seq<Expr> {
    match expr {
        Expr::Call { args, .. } => args@,
        Expr::MethodCall { args, .. } => args@,
        _ => Seq::empty(),
    }
}

/// Argument `i` has a type that needs no inference, not in error and not
/// `expected`.
pub open spec fn arg_mismatch(env: &Env, args: Seq<Expr>, i: int, expected: TyV) -> bool {
    &&& 0 <= i < args.len()
    &&& known_ty(env, args[i]) matches Some(t) && t != TyV::Error && t != expected
}

/// Every argument has a type that needs no inference, and it is its
/// parameter's type.
pub open spec fn args_known_fit(env: &Env, args: Seq<Expr>, params: Seq<Ty>) -> bool {
    &&& args.len() == params.len()
    &&& forall|i: int| 0 <= i < args.len() ==> known_ty(env, #[trigger] args[i]) == Some(params[i]@)
}

/// Every argument has a type that needs no inference.
pub open spec fn args_known(env: &Env, args: Seq<Expr>) -> bool {
    forall|i: int| 0 <= i < args.len() ==> known_ty(env, #[trigger] args[i]) is Some
}

/// Argument `a`, inferred as `t` with errors `mid`, checked against
/// parameter type `p`: a mismatch at the argument when `t` is not `p` (nor
/// in error). Left open where the argument's value moves a field out of a
/// value and `p` is not a reference.
pub open spec fn arg_checked(a: Expr, p: Ty, t: Ty, mid: Seq<TypeError>, after: Seq<TypeError>) -> bool {
    (!may_move_field(a) || p is Ref) ==> if arg_failed(p, t) {
        &&& one_more(after, mid)
        &&& after.last() matches TypeError::Mismatch { expected, found, span, .. }
        &&& expected == p && found == t && span == a.spec_span()
    } else {
        after == mid
    }
}

/// An argument of type `t` does not fit parameter type `p`.
pub open spec fn arg_failed(p: Ty, t: Ty) -> bool {
    !(t is Error) && t@ != p@
}

/// One argument's step: inferred (its outcome as `infer_expr` states it,
/// under the tables of `decls` and a scope that finds what `env` finds)
/// from errors `before`, then checked.
pub open spec fn arg_step(decls: &InferCtx, env: &Env, a: Expr, p: Ty, t: Ty, before: Seq<TypeError>, after: Seq<TypeError>) -> bool {
    exists|c: InferCtx, e2: Env, mid: Seq<TypeError>| {
        &&& decls_same(&c, decls) && c.errors@ == before && same_lookup(&e2, env)
        &&& #[trigger] expr_reports(&c, &e2, a, t, mid)
        &&& arg_checked(a, p, t, mid, after)
    }
}

/// The arguments checked one after the other against the parameters (as
/// many as both have): `tys[i]` is what argument `i` was inferred as,
/// `stages[i]` the errors before it.
pub open spec fn args_reports(decls: &InferCtx, env: &Env, args: Seq<Expr>, params: Seq<Ty>, stages: Seq<Seq<TypeError>>, tys: Seq<Ty>) -> bool {
    let m = if args.len() < params.len() { args.len() } else { params.len() };
    &&& stages.len() == m + 1 && tys.len() == m
    &&& forall|i: int| 0 <= i < m ==> #[trigger] arg_step(decls, env, args[i], params[i], tys[i], stages[i], stages[i + 1])
}

/// No argument's value moves a field where its parameter is not a reference.
pub open spec fn args_move_nothing(args: Seq<Expr>, params: Seq<Ty>) -> bool {
    forall|i: int| 0 <= i < args.len() && i < params.len() ==> !may_move_field(#[trigger] args[i]) || params[i] is Ref
}

/// Some argument does not fit its parameter.
pub open spec fn some_arg_failed(params: Seq<Ty>, tys: Seq<Ty>) -> bool {
    exists|i: int| 0 <= i < tys.len() && i < params.len() && arg_failed(params[i], #[trigger] tys[i])
}

/// Among the errors from index `from` on, one is a mismatch at `span`.
pub open spec fn mismatch_reported(errs: Seq<TypeError>, from: int, span: Span) -> bool {
    exists|k: int| from <= k < errs.len() && #[trigger] errs[k] is Mismatch && errs[k]->Mismatch_span == span
}

/// A mismatch once reported stays reported as errors accumulate.
pub proof fn lemma_mismatch_reported_kept(later: Seq<TypeError>, earlier: Seq<TypeError>, from: int, span: Span)
    requires
        0 <= from,
        extends(later, earlier),
        mismatch_reported(earlier, from, span),
    ensures
        mismatch_reported(later, from, span),
{
    let k = choose|k: int| from <= k < earlier.len() && #[trigger] earlier[k] is Mismatch && earlier[k]->Mismatch_span == span;
    assert(later[k] == earlier[k]);
}

pub fn infer_literal(lit: &Literal) -> (r: Ty)
    ensures
        r@ == literal_ty(*lit),
        *lit is Integer ==> r is I32,
        *lit is Float ==> r is F64,
        *lit is Bool ==> r is Bool,
        *lit is Char ==> r is Char,
        *lit is Str ==> (r matches Ty::Ref { mutable, region, inner }
            && !mutable && region == Some(Region::Static) && *inner is Str),
{
    proof {
        reveal_with_fuel(ty_view, 2);
    }
    match lit {
        Literal::Integer(_) => Ty::I32,
        Literal::Float(_) => Ty::F64,
        Literal::Bool(_) => Ty::Bool,
        Literal::Char(_) => Ty::Char,
        Literal::Str(_) => Ty::Ref { mutable: false, region: Some(Region::Static), inner: Box::new(Ty::Str) },
    }
}

/// The index of the last entry keyed `key` (where a later declaration of a
/// name replaces an earlier one).
#[verifier::loop_isolation(false)]
pub fn find_last_key<V>(v: &Vec<(String, V)>, key: &String) -> (r: Option<usize>)
    ensures
        match r {
            Some(i) => i < v@.len() && v@[i as int].0@ == key@
                && forall|j: int| i < j < v@.len() ==> #[trigger] v@[j].0@ != key@,
            None => forall|j: int| 0 <= j < v@.len() ==> #[trigger] v@[j].0@ != key@,
        },
{
    let mut k: usize = v.len();
    while k > 0
        invariant
            k <= v@.len(),
            forall|j: int| k <= j < v@.len() ==> #[trigger] v@[j].0@ != key@,
        decreases k,
    {
        if crate::text::same_text(&v[k - 1].0, key) {
            return Some(k - 1);
        }
        k = k - 1;
    }
    None
}

/// The names of an association list, in order.
#[verifier::loop_isolation(false)]
pub fn keys_of<V>(v: &Vec<(String, V)>) -> (r: Vec<String>)
    ensures
        r@.len() == v@.len(),
        forall|i: int| 0 <= i < v@.len() ==> #[trigger] r@[i] == v@[i].0,
{
    let mut out: Vec<String> = Vec::new();
    let mut i: usize = 0;
    while i < v.len()
        invariant
            i <= v@.len(),
            out@.len() == i,
            forall|j: int| 0 <= j < i ==> #[trigger] out@[j] == v@[j].0,
        decreases v@.len() - i,
    {
        out.push(v[i].0.clone());
        i = i + 1;
    }
    out
}

/// Infers an expression and records its type at its span.
pub fn infer_expr(expr: &Expr, ctx: &mut InferCtx, env: &mut Env) -> (r: Ty)
    requires
        old(env).frames().len() > 0,
    ensures
        ctx_step(final(ctx), old(ctx)),
        final(env).frames() == old(env).frames(),
        type_at(final(ctx).type_map@, expr.spec_span()) is Some,
        literal_inferred(*expr, r, old(ctx).errors@, final(ctx).errors@),
        expr_outcome(old(ctx), old(env), *expr, r, final(ctx).errors@),
        called_name(*expr) matches Some(n) ==> call_outcome(
            old(ctx), old(env), n, arg_count(*expr), expr.spec_span(), r, final(ctx).errors@, call_args(*expr)),
        method_call_outcome(old(ctx), old(env), *expr, r, final(ctx).errors@),
        field_access_outcome(old(ctx), old(env), *expr, r, final(ctx).errors@),
        struct_lit_outcome(old(ctx), *expr, r, final(ctx).errors@),
        call_args_outcome(old(ctx), old(env), *expr, r, final(ctx).errors@),
        super::ops::unary_operand_outcome(old(ctx), old(env), *expr, r, final(ctx).errors@),
        super::ops::binary_operands_outcome(old(ctx), old(env), *expr, r, final(ctx).errors@),
        method_receiver_outcome(old(ctx), old(env), *expr, r, final(ctx).errors@),
        branching_outcome(old(ctx), old(env), *expr, r, final(ctx).errors@),
    decreases expr, 4nat,
{
    let ty = infer_expr_inner(expr, ctx, env);
    let span = expr.span();
    proof {
        lemma_record_then_type_of(ctx.type_map@, span, ty);
    }
    proof { lemma_record_keeps(ctx.type_map@, span, ty); }
    ctx.record(span, ty.dup());
    ty
}

/// The value of `ctx`'s current declared return type, or unit outside a function.
fn current_return(ctx: &InferCtx) -> (r: Ty)
    ensures
        r == (if ctx.current_return_ty@.len() > 0 { ctx.current_return_ty@.last() } else { Ty::Unit }),
{
    let n = ctx.current_return_ty.len();
    if n > 0 {
        ctx.current_return_ty[n - 1].dup()
    } else {
        Ty::Unit
    }
}

#[verifier::loop_isolation(false)]
fn infer_expr_inner(expr: &Expr, ctx: &mut InferCtx, env: &mut Env) -> (r: Ty)
    requires
        old(env).frames().len() > 0,
    ensures
        ctx_step(final(ctx), old(ctx)),
        final(env).frames() == old(env).frames(),
        *expr matches Expr::Literal(lit, _) ==> (!(lit is Integer) ==>
            (r@ == literal_ty(lit) && final(ctx).errors@ == old(ctx).errors@)),
        *expr matches Expr::Ident(name, _) ==> (old(env).get(name@) matches Some(t) ==>
            (r@ == t && final(ctx).errors@ == old(ctx).errors@)),
        *expr matches Expr::Literal(Literal::Integer(n), s) ==> if n > 2147483647 {
            &&& r is Error
            &&& final(ctx).errors@ == old(ctx).errors@.push(TypeError::IntegerOutOfRange { value: n, span: s })
        } else {
            r is I32 && final(ctx).errors@ == old(ctx).errors@
        },
        expr_outcome(old(ctx), old(env), *expr, r, final(ctx).errors@),
        (*expr is While || *expr is Loop) ==> r is Unit,
        *expr matches Expr::If { else_branch: None, .. } ==> r is Unit,
        (*expr is Cast || *expr is Propagate || *expr is For) ==> (r is Error && final(ctx).errors@.last() is Deferred),
        called_name(*expr) matches Some(n) ==> call_outcome(
            old(ctx), old(env), n, arg_count(*expr), expr.spec_span(), r, final(ctx).errors@, call_args(*expr)),
        method_call_outcome(old(ctx), old(env), *expr, r, final(ctx).errors@),
        field_access_outcome(old(ctx), old(env), *expr, r, final(ctx).errors@),
        struct_lit_outcome(old(ctx), *expr, r, final(ctx).errors@),
        call_args_outcome(old(ctx), old(env), *expr, r, final(ctx).errors@),
        super::ops::unary_operand_outcome(old(ctx), old(env), *expr, r, final(ctx).errors@),
        super::ops::binary_operands_outcome(old(ctx), old(env), *expr, r, final(ctx).errors@),
        method_receiver_outcome(old(ctx), old(env), *expr, r, final(ctx).errors@),
        branching_outcome(old(ctx), old(env), *expr, r, final(ctx).errors@),
    decreases expr, 3nat,
{
    match expr {
        Expr::Literal(lit, span) => {
            if let Literal::Integer(n) = lit {
                if *n > 2147483647i64 {
                    ctx.error(TypeError::IntegerOutOfRange { value: *n, span: *span });
                    return Ty::Error;
                }
            }
            infer_literal(lit)
        },
        Expr::Ident(name, span) => infer_ident(name, *span, ctx, env),
        Expr::Unary { .. } => super::ops::infer_unary(expr, ctx, env),
        Expr::Binary { .. } => super::ops::infer_binary(expr, ctx, env),
        Expr::Call { .. } => infer_call(expr, ctx, env),
        Expr::Block(block) => {
            let ret = current_return(ctx);
            infer_block(block, &ret, ctx, env)
        },
        Expr::If { condition, then_block, else_branch, span } => {
            let ghost e0 = *env;
            let cond_ty = infer_expr(condition, ctx, env);
            let ghost s1 = ctx.errors@;
            let ghost ct = cond_ty;
            if !matches!(cond_ty, Ty::Bool | Ty::Error) {
                ctx.error(TypeError::NonBoolCondition { found: cond_ty, span: *span });
            }
            let ghost c2 = *ctx;
            let ghost e2 = *env;
            let ret = current_return(ctx);
            let then_ty = infer_block(then_block, &ret, ctx, env);
            let ghost s3 = ctx.errors@;
            let ghost tt = then_ty;
            proof {
                assert(expr_reports(old(ctx), &e0, **condition, ct, s1));
                assert(same_lookup(&e0, old(env)) && same_lookup(&e2, old(env)));
                assert(c2.errors@ == after_condition(ct, *span, s1));
                assert(ret@ == ret_view(old(ctx)));
                assert(body_value(&c2, &e2, **then_block, ret_view(old(ctx)), tt, s3));
            }
            match else_branch {
                Some(else_expr) => {
                    let ghost c3 = *ctx;
                    let ghost e3 = *env;
                    let else_ty = infer_expr(else_expr, ctx, env);
                    let ghost s4 = ctx.errors@;
                    let ghost et = else_ty;
                    proof {
                        assert(same_lookup(&e3, old(env)));
                        assert(expr_reports(&c3, &e3, **else_expr, et, s4));
                        reveal_with_fuel(ty_view, 1);
                    }
                    if !then_ty.is_error() && !else_ty.is_error() && !then_ty.same(&else_ty) {
                        ctx.error(TypeError::BranchMismatch { then: then_ty, else_: else_ty, span: *span });
                        proof {
                            assert(expr_reports(&c3, &e3, **else_expr, et, s4));
                            assert(expr_reports(old(ctx), &e0, **condition, ct, s1));
                            assert(body_value(&c2, &e2, **then_block, ret_view(old(ctx)), tt, s3));
                        }
                        return Ty::Error;
                    }
                    proof {
                        assert(expr_reports(&c3, &e3, **else_expr, et, s4));
                        assert(expr_reports(old(ctx), &e0, **condition, ct, s1));
                        assert(body_value(&c2, &e2, **then_block, ret_view(old(ctx)), tt, s3));
                    }
                    then_ty
                },
                None => Ty::Unit,
            }
        },
        Expr::While { condition, body, span } => {
            let ghost e0 = *env;
            let cond_ty = infer_expr(condition, ctx, env);
            let ghost s1 = ctx.errors@;
            let ghost ct = cond_ty;
            if !matches!(cond_ty, Ty::Bool | Ty::Error) {
                ctx.error(TypeError::NonBoolCondition { found: cond_ty, span: *span });
            }
            let ghost c2 = *ctx;
            let ghost e2 = *env;
            let ret = current_return(ctx);
            let bt = infer_block(body, &ret, ctx, env);
            proof {
                assert(expr_reports(old(ctx), &e0, **condition, ct, s1));
                assert(same_lookup(&e0, old(env)) && same_lookup(&e2, old(env)));
                assert(c2.errors@ == after_condition(ct, *span, s1));
                assert(body_value(&c2, &e2, **body, ret_view(old(ctx)), bt, ctx.errors@));
            }
            Ty::Unit
        },
        Expr::Loop { body, .. } => {
            // The value of `break` is not yet inferred: a loop is unit.
            let ret = current_return(ctx);
            infer_block(body, &ret, ctx, env);
            Ty::Unit
        },
        Expr::MethodCall { .. } => infer_method_call(expr, ctx, env),
        Expr::Field { .. } => infer_field_access(expr, ctx, env),
        Expr::Cast { span, .. } => defer(ctx, "cast (as) — rules not yet spec'd", *span),
        Expr::Propagate { span, .. } => defer(ctx, "? operator — requires Checked<T, E> design", *span),
        Expr::For { span, .. } => defer(ctx, "for loops — requires iterator trait", *span),
        Expr::Match { .. } => super::pattern::infer_match(expr, ctx, env),
        Expr::StructLit { .. } => infer_struct_lit(expr, ctx, env),
    }
}

/// A name in expression position: a local binding, else a function (its
/// return type), else a bare enum variant; anything else is undefined.
fn infer_ident(name: &String, span: Span, ctx: &mut InferCtx, env: &Env) -> (r: Ty)
    ensures
        ctx_step(final(ctx), old(ctx)),
        final(ctx).type_map@ == old(ctx).type_map@,
        env.get(name@) matches Some(t) ==> (r@ == t && final(ctx).errors@ == old(ctx).errors@),
        ident_outcome(old(ctx), env, name@, span, r, final(ctx).errors@),
{
    if let Some(t) = env.lookup(name) {
        return t.dup();
    }
    if let Some(i) = find_key(&ctx.fn_sigs, name) {
        return ctx.fn_sigs[i].1.0.return_ty.dup();
    }
    if let Some(j) = find_key(&ctx.variant_to_enum, name) {
        let enum_names = dup_strings(&ctx.variant_to_enum[j].1);
        if enum_names.len() > 1 {
            ctx.error(TypeError::AmbiguousVariant { variant_name: name.clone(), defined_in: enum_names, span });
            proof { assert(ctx.errors@.drop_last() =~= old(ctx).errors@); }
            return Ty::Error;
        }
        if enum_names.len() == 1 {
            let enum_name = enum_names[0].clone();
            let (is_generic, variant_is_unit) = match find_key(&ctx.enum_defs, &enum_name) {
                Some(e) => {
                    let info = &ctx.enum_defs[e].1;
                    let unit = match find_key(&info.variants, name) {
                        Some(v) => Some(info.variants[v].1.len() == 0),
                        None => None,
                    };
                    (info.is_generic, unit)
                },
                None => (false, None),
            };
            if is_generic {
                return defer(ctx, "bare variant on generic enum — requires type instantiation", span);
            }
            match variant_is_unit {
                Some(true) => {
                    return Ty::Named(enum_name);
                },
                Some(false) => {
                    ctx.error(TypeError::TupleVariantUsedAsUnit { enum_name, variant_name: name.clone(), span });
                    proof { assert(ctx.errors@.drop_last() =~= old(ctx).errors@); }
                    return Ty::Error;
                },
                None => {},
            }
        }
    }
    ctx.error(TypeError::UndefinedVariable {
        name: name.clone(),
        span,
        suggestion: Some(owned("check spelling, or declare the variable with `let`")),
    });
    proof { assert(ctx.errors@.drop_last() =~= old(ctx).errors@); }
    Ty::Error
}

/// Infers every argument of a call or method call (for their own checks
/// and recorded types), when the call itself is already decided.
#[verifier::loop_isolation(false)]
fn infer_args(expr: &Expr, ctx: &mut InferCtx, env: &mut Env)
    requires
        old(env).frames().len() > 0,
    ensures
        ctx_step(final(ctx), old(ctx)),
        final(env).frames() == old(env).frames(),
        forall|i: int| 0 <= i < call_args(*expr).len() ==>
            type_at(final(ctx).type_map@, (#[trigger] call_args(*expr)[i]).spec_span()) is Some,
        !(*expr is Call || *expr is MethodCall) ==> final(ctx).errors@ == old(ctx).errors@,
        args_known(old(env), call_args(*expr)) ==> final(ctx).errors@ == old(ctx).errors@,
    decreases expr, 0nat,
{
    match expr {
        Expr::Call { args, .. } | Expr::MethodCall { args, .. } => {
            let mut i: usize = 0;
            while i < args.len()
                invariant
                    i <= args@.len(),
                    ctx_step(ctx, old(ctx)),
                    env.frames() == old(env).frames(),
                    call_args(*expr) == args@,
                    forall|j: int| 0 <= j < i ==> type_at(ctx.type_map@, (#[trigger] args@[j]).spec_span()) is Some,
                    args_known(old(env), call_args(*expr)) ==> ctx.errors@ == old(ctx).errors@,
                decreases args@.len() - i,
            {
                proof {
                    assert(decreases_to!(expr => args@[i as int]));
                    if args_known(old(env), call_args(*expr)) {
                        assert(known_ty(old(env), args@[i as int]) is Some);
                    }
                }
                infer_expr(&args[i], ctx, env);
                i = i + 1;
            }
        },
        _ => {},
    }
}

/// `what expects `ty`` — the text of an argument-type suggestion.
fn expects_text(prefix: &str, what: &String, middle: &str, ty: &Ty) -> (r: String)
    ensures
        r@ == prefix@ + what@ + middle@ + ty_debug(ty@) + "`"@,
{
    let mut s = String::new();
    push_str(&mut s, prefix);
    push_str(&mut s, what.as_str());
    push_str(&mut s, middle);
    ty.push_debug(&mut s);
    push_str(&mut s, "`");
    s
}

/// `Enum::Variant` as written in diagnostics.
fn qualified(a: &String, b: &String) -> (r: String)
    ensures
        r@ == a@ + "::"@ + b@,
{
    let mut s = String::new();
    push_str(&mut s, a.as_str());
    push_str(&mut s, "::");
    push_str(&mut s, b.as_str());
    s
}

/// "pass exactly N argument(s) to `name`" and its variants.
fn pass_exactly(n: usize, tail: &str, name: &String, end: &str) -> (r: String)
    ensures
        r@ == "pass exactly "@ + dec_text(n as nat) + tail@ + name@ + end@,
{
    let mut s = String::new();
    push_str(&mut s, "pass exactly ");
    push_usize(&mut s, n);
    push_str(&mut s, tail);
    push_str(&mut s, name.as_str());
    push_str(&mut s, end);
    s
}

/// Checks each argument against its parameter type: a moved-out non-Copy
/// field (where no reference is expected) or a mismatch marks the call as
/// failed. Returns whether one did.
#[verifier::loop_isolation(false)]
fn check_args(expr: &Expr, params: &Vec<Ty>, what: &String, ctx: &mut InferCtx, env: &mut Env) -> (any_error: bool)
    requires
        old(env).frames().len() > 0,
    ensures
        ctx_step(final(ctx), old(ctx)),
        final(env).frames() == old(env).frames(),
        any_error ==> final(ctx).errors@.len() > old(ctx).errors@.len(),
        forall|i: int| 0 <= i < call_args(*expr).len() && i < params@.len() ==>
            type_at(final(ctx).type_map@, (#[trigger] call_args(*expr)[i]).spec_span()) is Some,
        forall|i: int| 0 <= i < params@.len() && #[trigger] arg_mismatch(old(env), call_args(*expr), i, params@[i]@) ==> (any_error
            && mismatch_reported(final(ctx).errors@, old(ctx).errors@.len() as int, call_args(*expr)[i].spec_span())),
        !(*expr is Call || *expr is MethodCall) ==> !any_error && final(ctx).errors@ == old(ctx).errors@,
        args_known_fit(old(env), call_args(*expr), params@) ==> !any_error && final(ctx).errors@ == old(ctx).errors@,
        exists|stages: Seq<Seq<TypeError>>, tys: Seq<Ty>| {
            &&& #[trigger] args_reports(old(ctx), old(env), call_args(*expr), params@, stages, tys)
            &&& stages[0] == old(ctx).errors@ && stages.last() == final(ctx).errors@
            &&& args_move_nothing(call_args(*expr), params@) ==> (any_error == some_arg_failed(params@, tys))
        },
    decreases expr, 0nat,
{
    let ghost stages: Seq<Seq<TypeError>> = seq![old(ctx).errors@];
    let ghost tys: Seq<Ty> = Seq::empty();
    let args = match expr {
        Expr::Call { args, .. } | Expr::MethodCall { args, .. } => args,
        _ => {
            proof {
                assert(args_reports(old(ctx), old(env), call_args(*expr), params@, stages, tys));
            }
            return false;
        },
    };
    let mut any_error = false;
    let mut i: usize = 0;
    while i < args.len() && i < params.len()
        invariant
            i <= args@.len(),
            i <= params@.len(),
            stages.len() == i + 1 && tys.len() == i,
            stages[0] == old(ctx).errors@ && stages.last() == ctx.errors@,
            forall|j: int| 0 <= j < i ==> #[trigger] arg_step(old(ctx), old(env), args@[j], params@[j], tys[j], stages[j], stages[j + 1]),
            args_move_nothing(args@.take(i as int), params@) ==> (any_error == some_arg_failed(params@, tys)),
            ctx_step(ctx, old(ctx)),
            env.frames() == old(env).frames(),
            (*expr matches Expr::Call { args: a, .. } && a == args) || (*expr matches Expr::MethodCall { args: a, .. } && a == args),
            any_error ==> ctx.errors@.len() > old(ctx).errors@.len(),
            call_args(*expr) == args@,
            forall|j: int| 0 <= j < i && j < params@.len() ==> type_at(ctx.type_map@, (#[trigger] args@[j]).spec_span()) is Some,
            forall|j: int| 0 <= j < i && j < params@.len() && #[trigger] arg_mismatch(old(env), call_args(*expr), j, params@[j]@) ==> (any_error
                && mismatch_reported(ctx.errors@, old(ctx).errors@.len() as int, args@[j].spec_span())),
            args_known_fit(old(env), call_args(*expr), params@) ==> !any_error && ctx.errors@ == old(ctx).errors@,
        decreases args@.len() - i,
    {
        proof {
            assert(decreases_to!(expr => args@[i as int]));
        }
        let ghost errs0 = ctx.errors@;
        let ghost c0 = *ctx;
        let ghost e0 = *env;
        let ghost any0 = any_error;
        let arg = &args[i];
        let expected = &params[i];
        let arg_ty = infer_expr(arg, ctx, env);
        let ghost mid = ctx.errors@;
        proof {
            assert(expr_reports(&c0, &e0, args@[i as int], arg_ty, mid));
            assert(same_lookup(&e0, old(env)));
        }
        proof {
            if args_known_fit(old(env), call_args(*expr), params@) {
                assert(known_ty(old(env), args@[i as int]) == Some(params@[i as int]@));
            }
        }
        if !expected.is_ref() && check_tail_field_own_non_copy(arg, ctx) {
            any_error = true;
        } else if !arg_ty.is_error() && !arg_ty.same(expected) {
            let mut sugg = String::new();
            push_str(&mut sugg, "argument ");
            push_usize(&mut sugg, if i < usize::MAX { i + 1 } else { i });
            push_str(&mut sugg, " of `");
            push_str(&mut sugg, what.as_str());
            push_str(&mut sugg, "` expects `");
            expected.push_debug(&mut sugg);
            push_str(&mut sugg, "`");
            let ghost before = ctx.errors@;
            ctx.error(TypeError::Mismatch { expected: expected.dup(), found: arg_ty, span: arg.span(), suggestion: Some(sugg) });
            any_error = true;
            proof {
                assert(ctx.errors@[before.len() as int] is Mismatch);
                assert(mismatch_reported(ctx.errors@, old(ctx).errors@.len() as int, args@[i as int].spec_span()));
                assert(ctx.errors@.drop_last() =~= before);
            }
        } else {
            proof {
                if arg_mismatch(old(env), call_args(*expr), i as int, params@[i as int]@) {
                    reveal_with_fuel(ty_view, 2);
                    assert(false);
                }
            }
        }
        proof {
            assert forall|j: int| 0 <= j < i && j < params@.len() && #[trigger] arg_mismatch(old(env), call_args(*expr), j, params@[j]@)
                implies mismatch_reported(ctx.errors@, old(ctx).errors@.len() as int, args@[j].spec_span()) by {
                lemma_mismatch_reported_kept(ctx.errors@, errs0, old(ctx).errors@.len() as int, args@[j].spec_span());
            }
            reveal_with_fuel(ty_view, 1);
            assert((!may_move_field(args@[i as int]) || params@[i as int] is Ref) ==>
                any_error == (any0 || arg_failed(params@[i as int], arg_ty)));
            assert(arg_checked(args@[i as int], params@[i as int], arg_ty, mid, ctx.errors@));
            assert(arg_step(old(ctx), old(env), args@[i as int], params@[i as int], arg_ty, errs0, ctx.errors@));
            let s0 = stages;
            let t0 = tys;
            stages = stages.push(ctx.errors@);
            tys = tys.push(arg_ty);
            assert forall|j: int| 0 <= j < i + 1 implies #[trigger] arg_step(old(ctx), old(env), args@[j], params@[j], tys[j], stages[j], stages[j + 1]) by {
                if j < i {
                    assert(tys[j] == t0[j] && stages[j] == s0[j] && stages[j + 1] == s0[j + 1]);
                }
            }
            if args_move_nothing(args@.take(i + 1), params@) {
                assert(args_move_nothing(args@.take(i as int), params@)) by {
                    assert forall|j: int| 0 <= j < args@.take(i as int).len() && j < params@.len()
                        implies !may_move_field(#[trigger] args@.take(i as int)[j]) || params@[j] is Ref by {
                        assert(args@.take(i as int)[j] == args@.take(i + 1)[j]);
                    }
                }
                assert(args@.take(i + 1)[i as int] == args@[i as int]);
                assert(!may_move_field(args@[i as int]) || params@[i as int] is Ref);
                assert(any0 == some_arg_failed(params@, t0));
                if any0 {
                    let k = choose|k: int| 0 <= k < t0.len() && k < params@.len() && arg_failed(params@[k], #[trigger] t0[k]);
                    assert(tys[k] == t0[k]);
                }
                if arg_failed(params@[i as int], arg_ty) {
                    assert(tys[i as int] == arg_ty);
                }
                if some_arg_failed(params@, tys) {
                    let k = choose|k: int| 0 <= k < tys.len() && k < params@.len() && arg_failed(params@[k], #[trigger] tys[k]);
                    if k < i {
                        assert(tys[k] == t0[k]);
                    }
                }
            }
        }
        i = i + 1;
    }
    proof {
        assert(args@.take(i as int) =~= args@.take(i as int));
        if args_move_nothing(call_args(*expr), params@) {
            assert forall|j: int| 0 <= j < args@.take(i as int).len() && j < params@.len()
                implies !may_move_field(#[trigger] args@.take(i as int)[j]) || params@[j] is Ref by {
                assert(args@.take(i as int)[j] == args@[j]);
            }
        }
        assert(args_reports(old(ctx), old(env), call_args(*expr), params@, stages, tys));
    }
    any_error
}

/// Checks the arguments of a variant constructor against its payload types.
#[verifier::loop_isolation(false)]
fn check_variant_args(expr: &Expr, field_tys: &Vec<Ty>, prefix: &str, qname: &String, ctx: &mut InferCtx, env: &mut Env)
    requires
        old(env).frames().len() > 0,
    ensures
        ctx_step(final(ctx), old(ctx)),
        final(env).frames() == old(env).frames(),
        forall|i: int| 0 <= i < call_args(*expr).len() && i < field_tys@.len() ==>
            type_at(final(ctx).type_map@, (#[trigger] call_args(*expr)[i]).spec_span()) is Some,
        forall|i: int| 0 <= i < field_tys@.len() && #[trigger] arg_mismatch(old(env), call_args(*expr), i, field_tys@[i]@)
            && !(field_tys@[i] is Error)
            ==> mismatch_reported(final(ctx).errors@, old(ctx).errors@.len() as int, call_args(*expr)[i].spec_span()),
        !(*expr is Call || *expr is MethodCall) ==> final(ctx).errors@ == old(ctx).errors@,
        args_known_fit(old(env), call_args(*expr), field_tys@) ==> final(ctx).errors@ == old(ctx).errors@,
    decreases expr, 0nat,
{
    let args = match expr {
        Expr::Call { args, .. } | Expr::MethodCall { args, .. } => args,
        _ => {
            return;
        },
    };
    let mut i: usize = 0;
    while i < args.len() && i < field_tys.len()
        invariant
            i <= args@.len(),
            ctx_step(ctx, old(ctx)),
            env.frames() == old(env).frames(),
            (*expr matches Expr::Call { args: a, .. } && a == args) || (*expr matches Expr::MethodCall { args: a, .. } && a == args),
            call_args(*expr) == args@,
            forall|j: int| 0 <= j < i && j < field_tys@.len() ==> type_at(ctx.type_map@, (#[trigger] args@[j]).spec_span()) is Some,
            forall|j: int| 0 <= j < i && j < field_tys@.len() && #[trigger] arg_mismatch(old(env), call_args(*expr), j, field_tys@[j]@)
                && !(field_tys@[j] is Error)
                ==> mismatch_reported(ctx.errors@, old(ctx).errors@.len() as int, args@[j].spec_span()),
            args_known_fit(old(env), call_args(*expr), field_tys@) ==> ctx.errors@ == old(ctx).errors@,
        decreases args@.len() - i,
    {
        proof {
            assert(decreases_to!(expr => args@[i as int]));
        }
        let ghost errs0 = ctx.errors@;
        let arg = &args[i];
        let expected = &field_tys[i];
        let arg_ty = infer_expr(arg, ctx, env);
        proof {
            if args_known_fit(old(env), call_args(*expr), field_tys@) {
                assert(known_ty(old(env), args@[i as int]) == Some(field_tys@[i as int]@));
            }
        }
        let sugg = expects_text(prefix, qname, "` expects `", expected);
        let ghost before = ctx.errors@;
        check_types(expected, &arg_ty, arg.span(), ctx, Some(sugg));
        proof {
            if arg_mismatch(old(env), call_args(*expr), i as int, field_tys@[i as int]@) && !(field_tys@[i as int] is Error) {
                reveal_with_fuel(ty_view, 2);
                assert(!(arg_ty is Error));
                assert(ctx.errors@[before.len() as int] is Mismatch);
            }
            assert forall|j: int| 0 <= j < i && j < field_tys@.len() && #[trigger] arg_mismatch(old(env), call_args(*expr), j, field_tys@[j]@)
                && !(field_tys@[j] is Error)
                implies mismatch_reported(ctx.errors@, old(ctx).errors@.len() as int, args@[j].spec_span()) by {
                lemma_mismatch_reported_kept(ctx.errors@, errs0, old(ctx).errors@.len() as int, args@[j].spec_span());
            }
        }
        i = i + 1;
    }
}

/// The name called by a call expression whose callee is a plain name.
pub open spec fn called_name(expr: Expr) -> Option<Seq<char>> {
    match expr {
        Expr::Call { callee, .. } => match *callee {
            Expr::Ident(n, _) => Some(n@),
            _ => None,
        },
        _ => None,
    }
}

/// The number of arguments of a call or method call.
pub open spec fn arg_count(expr: Expr) -> int {
    match expr {
        Expr::Call { args, .. } => args.len() as int,
        Expr::MethodCall { args, .. } => args.len() as int,
        _ => 0,
    }
}

/// The payload types of variant `v` of the enum declared as `e`, and whether
/// that enum is generic; `None` where no enum `e` is declared.
pub open spec fn variant_payload(ctx: &InferCtx, e: Seq<char>, v: Seq<char>) -> Option<(bool, Seq<Ty>)> {
    let defs = ctx.enum_defs@;
    if has_key(defs, e) {
        let info = defs[first_key_index(defs, e)].1;
        let vs = info.variants@;
        Some((info.is_generic, if has_key(vs, v) { vs[first_key_index(vs, v)].1@ } else { Seq::empty() }))
    } else {
        None
    }
}

/// What a call of a declared function yields and reports: a generic one is
/// deferred, a wrong number of arguments is reported, and otherwise the
/// declared return type comes back unless an argument was reported.
pub open spec fn fn_call_outcome(
    sig: FnSig,
    argc: int,
    name: Seq<char>,
    span: Span,
    r: Ty,
    new_errs: Seq<TypeError>,
    old_errs: Seq<TypeError>,
    env: &Env,
    args: Seq<Expr>,
) -> bool {
    if sig.is_generic {
        r is Error && new_errs.last() is Deferred
    } else if argc != sig.params@.len() {
        &&& r is Error
        &&& new_errs.last() matches TypeError::ArgCountMismatch { name: m, expected, found, span: s, .. }
        &&& m@ == name && expected == sig.params@.len() && found == argc && s == span
        &&& args_known(env, args) ==> one_more(new_errs, old_errs)
    } else {
        &&& r == sig.return_ty || (r is Error && new_errs.len() > old_errs.len())
        &&& forall|i: int| 0 <= i < sig.params@.len() && #[trigger] arg_mismatch(env, args, i, sig.params@[i]@)
            ==> (r is Error && mismatch_reported(new_errs, old_errs.len() as int, args[i].spec_span()))
        &&& args_known_fit(env, args, sig.params@) ==> (r == sig.return_ty && new_errs == old_errs)
    }
}

/// What a call of a declared non-generic function with as many arguments as
/// parameters yields and reports, argument by argument: each argument is
/// inferred and checked against its parameter type; the declared return
/// type comes back unless an argument does not fit.
pub open spec fn call_args_outcome(ctx: &InferCtx, env: &Env, expr: Expr, r: Ty, errs: Seq<TypeError>) -> bool {
    called_name(expr) matches Some(n) ==> {
        let sigs = ctx.fn_sigs@;
        let sig = sigs[first_key_index(sigs, n)].1.0;
        (env.get(n) is None && !has_key(ctx.variant_to_enum@, n) && has_key(sigs, n) && !sig.is_generic
            && arg_count(expr) == sig.params@.len()) ==> exists|stages: Seq<Seq<TypeError>>, tys: Seq<Ty>| {
            &&& #[trigger] args_reports(ctx, env, call_args(expr), sig.params@, stages, tys)
            &&& stages[0] == ctx.errors@ && stages.last() == errs
            &&& args_move_nothing(call_args(expr), sig.params@) ==>
                r == (if some_arg_failed(sig.params@, tys) { Ty::Error } else { sig.return_ty })
        }
    }
}

/// What a tuple-variant constructor `e::v(args)` yields and reports, given
/// the payload found for it.
pub open spec fn variant_call_outcome(
    payload: Option<(bool, Seq<Ty>)>,
    e: Seq<char>,
    v: Seq<char>,
    argc: int,
    span: Span,
    r: Ty,
    new_errs: Seq<TypeError>,
) -> bool {
    let (generic, fields) = match payload {
        Some(p) => p,
        None => (false, Seq::empty()),
    };
    if generic {
        r is Error && new_errs.last() is Deferred
    } else if fields.len() == 0 {
        &&& r is Error
        &&& new_errs.last() matches TypeError::UnitVariantCalledAsFunction { enum_name: a, variant_name: b, span: s }
        &&& a@ == e && b@ == v && s == span
    } else if argc != fields.len() {
        &&& r is Error
        &&& new_errs.last() matches TypeError::VariantArgCountMismatch { enum_name: a, variant_name: b, expected, found, span: s, .. }
        &&& a@ == e && b@ == v && expected == fields.len() && found == argc && s == span
    } else {
        r@ == TyV::Named(e)
    }
}

/// What a call `name(args)` yields and reports: a local binding of that
/// name is deferred; a bare variant name must belong to exactly one enum;
/// a declared function is checked; anything else is undefined.
pub open spec fn call_outcome(
    ctx: &InferCtx,
    env: &Env,
    name: Seq<char>,
    argc: int,
    span: Span,
    r: Ty,
    new_errs: Seq<TypeError>,
    args: Seq<Expr>,
) -> bool {
    let vte = ctx.variant_to_enum@;
    let sigs = ctx.fn_sigs@;
    if env.get(name) is Some {
        r is Error && new_errs.last() is Deferred
    } else if has_key(vte, name) {
        let owners = vte[first_key_index(vte, name)].1@;
        if owners.len() != 1 {
            &&& r is Error
            &&& new_errs.last() matches TypeError::AmbiguousVariant { variant_name: b, span: s, .. }
            &&& b@ == name && s == span
        } else {
            let e = owners[0]@;
            variant_call_outcome(variant_payload(ctx, e, name), e, name, argc, span, r, new_errs)
        }
    } else if has_key(sigs, name) {
        fn_call_outcome(sigs[first_key_index(sigs, name)].1.0, argc, name, span, r, new_errs, ctx.errors@, env, args)
    } else {
        &&& r is Error
        &&& new_errs.last() matches TypeError::UndefinedFunction { name: m, span: s, .. }
        &&& m@ == name && s == span
    }
}

/// A call `callee(args)`: a bare tuple-variant constructor, or a declared
/// non-generic function whose arity and argument types are checked.
/// Calling anything else (an expression, a local binding, a generic
/// function) is deferred.
fn infer_call(expr: &Expr, ctx: &mut InferCtx, env: &mut Env) -> (r: Ty)
    requires
        old(env).frames().len() > 0,
    ensures
        ctx_step(final(ctx), old(ctx)),
        final(env).frames() == old(env).frames(),
        called_name(*expr) matches Some(n) ==> call_outcome(
            old(ctx), old(env), n, arg_count(*expr), expr.spec_span(), r, final(ctx).errors@, call_args(*expr)),
        call_args_outcome(old(ctx), old(env), *expr, r, final(ctx).errors@),
    decreases expr, 1nat,
{
    let (callee, args, span) = match expr {
        Expr::Call { callee, args, span } => (callee, args, *span),
        _ => {
            return Ty::Error;
        },
    };
    let name = match &**callee {
        Expr::Ident(n, _) => n,
        _ => {
            infer_expr(callee, ctx, env);
            infer_args(expr, ctx, env);
            return defer(ctx, "non-identifier callees (function pointers, closures)", span);
        },
    };
    // A local binding shadows a function name.
    if env.lookup(name).is_some() {
        infer_args(expr, ctx, env);
        return defer(ctx, "calling local variables as functions (closures/fn pointers)", span);
    }
    // A bare tuple-variant constructor: `Circle(3.14)`.
    if let Some(j) = find_key(&ctx.variant_to_enum, name) {
        let enum_names = dup_strings(&ctx.variant_to_enum[j].1);
        if enum_names.len() != 1 {
            infer_args(expr, ctx, env);
            ctx.error(TypeError::AmbiguousVariant { variant_name: name.clone(), defined_in: enum_names, span });
            return Ty::Error;
        }
        let enum_name = enum_names[0].clone();
        let (enum_is_generic, field_tys) = match find_key(&ctx.enum_defs, &enum_name) {
            Some(e) => {
                let info = &ctx.enum_defs[e].1;
                let tys = match find_key(&info.variants, name) {
                    Some(v) => dup_tys(&info.variants[v].1),
                    None => Vec::new(),
                };
                (info.is_generic, tys)
            },
            None => (false, Vec::new()),
        };
        if enum_is_generic {
            infer_args(expr, ctx, env);
            return defer(ctx, "bare variant on generic enum — requires type instantiation", span);
        }
        if field_tys.len() == 0 {
            infer_args(expr, ctx, env);
            ctx.error(TypeError::UnitVariantCalledAsFunction { enum_name, variant_name: name.clone(), span });
            return Ty::Error;
        }
        let qname = qualified(&enum_name, name);
        if args.len() != field_tys.len() {
            infer_args(expr, ctx, env);
            let sugg = pass_exactly(field_tys.len(), " argument(s) to `", &qname, "`");
            ctx.error(TypeError::VariantArgCountMismatch {
                enum_name,
                variant_name: name.clone(),
                expected: field_tys.len(),
                found: args.len(),
                span,
                suggestion: Some(sugg),
            });
            return Ty::Error;
        }
        check_variant_args(expr, &field_tys, "field of `", &qname, ctx, env);
        return Ty::Named(enum_name);
    }
    let sig: FnSig = match find_key(&ctx.fn_sigs, name) {
        Some(i) => ctx.fn_sigs[i].1.0.dup(),
        None => {
            infer_args(expr, ctx, env);
            ctx.error(TypeError::UndefinedFunction {
                name: name.clone(),
                span,
                suggestion: Some(owned("check spelling, or add a `fn` declaration")),
            });
            return Ty::Error;
        },
    };
    if sig.is_generic {
        infer_args(expr, ctx, env);
        return defer(ctx, "generic function call instantiation — unification not yet implemented", span);
    }
    if args.len() != sig.params.len() {
        infer_args(expr, ctx, env);
        let sugg = pass_exactly(sig.params.len(), " argument(s), or change the signature of `", name, "`");
        let ghost before = ctx.errors@;
        ctx.error(TypeError::ArgCountMismatch {
            name: name.clone(),
            expected: sig.params.len(),
            found: args.len(),
            span,
            suggestion: Some(sugg),
        });
        proof { assert(ctx.errors@.drop_last() =~= before); }
        return Ty::Error;
    }
    let any_error = check_args(expr, &sig.params, name, ctx, env);
    if any_error { Ty::Error } else { sig.return_ty }
}

/// The type name a method call dispatches on: a named type behind at most
/// one reference.
pub fn dispatch_type_name(ty: &Ty) -> (r: Option<&String>)
    ensures
        *ty matches Ty::Named(n) ==> r == Some(&n),
        *ty matches Ty::Ref { inner, .. } ==> (*inner matches Ty::Named(n) ==> r == Some(&n)),
        !(*ty is Named || (*ty matches Ty::Ref { inner, .. } && *inner is Named)) ==> r is None,
{
    match ty {
        Ty::Named(n) => Some(n),
        Ty::Ref { inner, .. } => match &**inner {
            Ty::Named(n) => Some(n),
            _ => None,
        },
        _ => None,
    }
}

/// Whether `a` sorts before `b`: at the first position where they differ the
/// character of `a` has the smaller code, or `a` is a proper prefix of `b`.
pub open spec fn text_lt(a: Seq<char>, b: Seq<char>) -> bool
    decreases a.len(),
{
    if a.len() == 0 {
        b.len() > 0
    } else if b.len() == 0 {
        false
    } else if (a[0] as u32) < (b[0] as u32) {
        true
    } else if (b[0] as u32) < (a[0] as u32) {
        false
    } else {
        text_lt(a.drop_first(), b.drop_first())
    }
}

/// Two texts do not each sort before the other.
pub proof fn lemma_text_lt_asym(a: Seq<char>, b: Seq<char>)
    ensures
        !(text_lt(a, b) && text_lt(b, a)),
    decreases a.len(),
{
    if a.len() > 0 && b.len() > 0 {
        lemma_text_lt_asym(a.drop_first(), b.drop_first());
    }
}

/// Sorting before `a` means sorting before `b` or `b` sorting before `a`:
/// not sorting after is transitive.
pub proof fn lemma_text_lt_split(c: Seq<char>, a: Seq<char>, b: Seq<char>)
    requires
        text_lt(c, a),
    ensures
        text_lt(c, b) || text_lt(b, a),
    decreases c.len(),
{
    if c.len() > 0 && a.len() > 0 && b.len() > 0 {
        if !((c[0] as u32) < (b[0] as u32)) && !((b[0] as u32) < (a[0] as u32)) && (c[0] as u32) == (a[0] as u32) {
            lemma_text_lt_split(c.drop_first(), a.drop_first(), b.drop_first());
        }
    }
}

/// Whether the names are in order: none sorts before one earlier.
pub open spec fn names_sorted(v: Seq<String>) -> bool {
    forall|i: int, j: int| 0 <= i < j < v.len() ==> !text_lt(#[trigger] v[j]@, #[trigger] v[i]@)
}

/// Whether `a` sorts before `b`, character by character.
#[verifier::loop_isolation(false)]
fn text_less(a: &String, b: &String) -> (r: bool)
    ensures
        r == text_lt(a@, b@),
{
    let x = a.as_str();
    let y = b.as_str();
    let n = x.unicode_len();
    let m = y.unicode_len();
    let mut i: usize = 0;
    assert(x@.skip(0) =~= x@);
    assert(y@.skip(0) =~= y@);
    while i < n && i < m
        invariant
            i <= n,
            i <= m,
            n == x@.len(),
            m == y@.len(),
            x@ == a@,
            y@ == b@,
            text_lt(a@, b@) == text_lt(x@.skip(i as int), y@.skip(i as int)),
        decreases n - i,
    {
        let c = x.get_char(i);
        let d = y.get_char(i);
        assert(x@.skip(i as int)[0] == c);
        assert(y@.skip(i as int)[0] == d);
        if (c as u32) < (d as u32) {
            return true;
        }
        if (d as u32) < (c as u32) {
            return false;
        }
        assert(x@.skip(i as int).drop_first() =~= x@.skip(i + 1));
        assert(y@.skip(i as int).drop_first() =~= y@.skip(i + 1));
        i = i + 1;
    }
    n < m
}

/// The names, sorted: the same names, each after every one that sorts
/// before it.
#[verifier::loop_isolation(false)]
fn sorted_names(v: Vec<String>) -> (r: Vec<String>)
    ensures
        r@.to_multiset() == v@.to_multiset(),
        names_sorted(r@),
{
    broadcast use vstd::seq_lib::group_to_multiset_ensures;
    let mut out: Vec<String> = Vec::new();
    let mut rest = v;
    let ghost all = rest@;
    while rest.len() > 0
        invariant
            out@.to_multiset().add(rest@.to_multiset()) == all.to_multiset(),
            names_sorted(out@),
        decreases rest@.len(),
    {
        let ghost rest0 = rest@;
        let s = rest.pop().unwrap();
        assert(rest0 =~= rest@.push(s));
        let mut k: usize = 0;
        while k < out.len() && text_less(&out[k], &s)
            invariant
                k <= out@.len(),
                forall|m: int| 0 <= m < k ==> text_lt(#[trigger] out@[m]@, s@),
            decreases out@.len() - k,
        {
            k = k + 1;
        }
        let ghost out0 = out@;
        out.insert(k, s);
        proof {
            assert(out@.remove(k as int) =~= out0);
            assert(out@[k as int] == s);
            assert(out@.to_multiset() =~= out0.to_multiset().insert(s));
            assert forall|i: int, j: int| 0 <= i < j < out@.len() implies !text_lt(#[trigger] out@[j]@, #[trigger] out@[i]@) by {
                if j < k {
                    assert(out@[i] == out0[i] && out@[j] == out0[j]);
                } else if j == k {
                    assert(out@[i] == out0[i]);
                    lemma_text_lt_asym(out0[i]@, s@);
                } else if i == k {
                    assert(out@[j] == out0[j - 1]);
                    if text_lt(out0[j - 1]@, s@) {
                        lemma_text_lt_split(out0[j - 1]@, s@, out0[k as int]@);
                    }
                } else if i < k {
                    assert(out@[i] == out0[i] && out@[j] == out0[j - 1]);
                } else {
                    assert(out@[i] == out0[i - 1] && out@[j] == out0[j - 1]);
                }
            }
        }
    }
    out
}

/// The receiver, method name and method-name span of a method call.
pub open spec fn method_parts(expr: Expr) -> Option<(Expr, Seq<char>, Span)> {
    match expr {
        Expr::MethodCall { object, method, method_span, .. } => Some((*object, method@, method_span)),
        _ => None,
    }
}

/// The enum a receiver names: a plain name that no local binding holds and
/// that a declared enum has.
pub open spec fn receiver_enum(ctx: &InferCtx, env: &Env, object: Expr) -> Option<Seq<char>> {
    match object {
        Expr::Ident(e, _) => if env.get(e@) is None && has_key(ctx.enum_defs@, e@) { Some(e@) } else { None },
        _ => None,
    }
}

/// The type name a receiver of type `t` dispatches on.
pub open spec fn dispatch_name(t: Ty) -> Option<Seq<char>> {
    match t {
        Ty::Named(n) => Some(n@),
        Ty::Ref { inner, .. } => match *inner {
            Ty::Named(n) => Some(n@),
            _ => None,
        },
        _ => None,
    }
}

/// What `Enum.v(args)` yields and reports when `e` names a declared enum
/// and no local binding: an unknown variant lists the enum's variants.
pub open spec fn qualified_variant_outcome(
    ctx: &InferCtx,
    e: Seq<char>,
    v: Seq<char>,
    v_span: Span,
    argc: int,
    span: Span,
    r: Ty,
    new_errs: Seq<TypeError>,
) -> bool {
    let defs = ctx.enum_defs@;
    let info = defs[first_key_index(defs, e)].1;
    let vs = info.variants@;
    if !info.is_generic && !has_key(vs, v) {
        &&& r is Error
        &&& new_errs.last() matches TypeError::VariantNotFound { enum_name: a, variant_name: b, span: s, available }
        &&& a@ == e && b@ == v && s == v_span
        &&& available@.len() == vs.len()
        &&& forall|i: int| 0 <= i < vs.len() ==> #[trigger] available@[i] == vs[i].0
    } else {
        variant_call_outcome(variant_payload(ctx, e, v), e, v, argc, span, r, new_errs)
    }
}

/// Names joined with `, `.
pub open spec fn joined(names: Seq<String>) -> Seq<char>
    decreases names.len(),
{
    if names.len() == 0 {
        Seq::empty()
    } else if names.len() == 1 {
        names[0]@
    } else {
        joined(names.drop_last()) + ", "@ + names.last()@
    }
}

/// The suggestion of a method lookup that failed on type `tn` with the
/// methods `methods`: none declared, or all their names, sorted.
pub open spec fn methods_suggestion(tn: Seq<char>, methods: Seq<(String, (FnSig, Span))>, sg: Seq<char>) -> bool {
    if methods.len() == 0 {
        sg == "type `"@ + tn + "` has no impl block"@
    } else {
        exists|avail: Seq<String>| #![trigger avail.to_multiset()]
            avail.to_multiset() == methods.map_values(|e: (String, (FnSig, Span))| e.0).to_multiset()
            && names_sorted(avail) && sg == "type `"@ + tn + "` has methods: "@ + joined(avail)
    }
}

/// What a method call on a receiver of type `t` yields and reports: the
/// method is looked up in the impl of the type named behind at most one
/// reference; a `move self` method through a reference, a generic method
/// and a wrong number of arguments each have their outcome; otherwise the
/// declared return type comes back unless an argument was reported.
pub open spec fn method_outcome(
    ctx: &InferCtx,
    t: Ty,
    m: Seq<char>,
    m_span: Span,
    argc: int,
    span: Span,
    r: Ty,
    new_errs: Seq<TypeError>,
    base: Seq<TypeError>,
    env: &Env,
    args: Seq<Expr>,
) -> bool {
    if t is Error {
        r is Error && (args_known(env, args) ==> new_errs == base)
    } else {
        match dispatch_name(t) {
            None => {
                &&& r is Error
                &&& new_errs.last() matches TypeError::MethodNotFound { method_name: b, span: s, .. }
                &&& b@ == m && s == m_span
            },
            Some(tn) => {
                let impls = ctx.impl_sigs@;
                let methods = impls[first_key_index(impls, tn)].1@;
                if !has_key(impls, tn) || !has_key(methods, m) {
                    &&& r is Error
                    &&& new_errs.last() matches TypeError::MethodNotFound { ty_name: a, method_name: b, span: s, suggestion }
                    &&& a@ == tn && b@ == m && s == m_span
                    &&& suggestion matches Some(sg) && methods_suggestion(tn, if has_key(impls, tn) { methods } else { Seq::empty() }, sg@)
                } else {
                    let sig = methods[first_key_index(methods, m)].1.0;
                    if sig.self_consuming && t is Ref {
                        &&& r is Error
                        &&& new_errs.last() matches TypeError::ConsumeViaRef { ty_name: a, method_name: b, span: s }
                        &&& a@ == tn && b@ == m && s == span
                    } else {
                        fn_call_outcome(sig, argc, tn + "::"@ + m, span, r, new_errs, base, env, args)
                    }
                }
            },
        }
    }
}

/// The outcome of a method call for some receiver type, after some
/// further errors.
pub open spec fn some_method_outcome(
    ctx: &InferCtx,
    env: &Env,
    m: Seq<char>,
    m_span: Span,
    argc: int,
    span: Span,
    r: Ty,
    new_errs: Seq<TypeError>,
    args: Seq<Expr>,
) -> bool {
    exists|t: Ty, base: Seq<TypeError>| extends(base, ctx.errors@)
        && #[trigger] method_outcome(ctx, t, m, m_span, argc, span, r, new_errs, base, env, args)
}

/// What a method call on the non-enum receiver `object` yields and reports:
/// a name is resolved as an expression name is (its type and errors as
/// `ident_outcome` says), another receiver whose type needs no inference is
/// of that type; the method is then looked up on that type.
pub open spec fn receiver_method_outcome(
    ctx: &InferCtx,
    env: &Env,
    object: Expr,
    m: Seq<char>,
    m_span: Span,
    argc: int,
    span: Span,
    r: Ty,
    new_errs: Seq<TypeError>,
    args: Seq<Expr>,
) -> bool {
    match object {
        Expr::Ident(n, s) => exists|t: Ty, base: Seq<TypeError>| #[trigger] ident_outcome(ctx, env, n@, s, t, base)
            && method_outcome(ctx, t, m, m_span, argc, span, r, new_errs, base, env, args),
        _ => match known_ty(env, object) {
            Some(tv) => exists|t: Ty| t@ == tv && #[trigger] method_outcome(ctx, t, m, m_span, argc, span, r, new_errs, ctx.errors@, env, args),
            None => some_method_outcome(ctx, env, m, m_span, argc, span, r, new_errs, args),
        },
    }
}

/// An outcome for the receiver's own type and errors is the receiver's outcome.
pub proof fn lemma_method_outcome_witness(
    ctx: &InferCtx,
    env: &Env,
    object: Expr,
    t: Ty,
    base: Seq<TypeError>,
    m: Seq<char>,
    m_span: Span,
    argc: int,
    span: Span,
    r: Ty,
    new_errs: Seq<TypeError>,
    args: Seq<Expr>,
)
    requires
        method_outcome(ctx, t, m, m_span, argc, span, r, new_errs, base, env, args),
        extends(base, ctx.errors@),
        object matches Expr::Ident(n, s) ==> ident_outcome(ctx, env, n@, s, t, base),
        !(object is Ident) ==> (known_ty(env, object) matches Some(tv) ==> (t@ == tv && base == ctx.errors@)),
    ensures
        receiver_method_outcome(ctx, env, object, m, m_span, argc, span, r, new_errs, args),
{
}

/// Two environments with the same scopes give every expression the same
/// known type.
pub proof fn lemma_known_ty_frames(e1: &Env, e2: &Env)
    requires
        e1.frames() == e2.frames(),
    ensures
        forall|a: Expr| #[trigger] known_ty(e1, a) == known_ty(e2, a),
{
}

/// A method outcome depends on the environment through its scopes only.
pub proof fn lemma_method_outcome_frames(
    ctx: &InferCtx,
    t: Ty,
    m: Seq<char>,
    m_span: Span,
    argc: int,
    span: Span,
    r: Ty,
    new_errs: Seq<TypeError>,
    base: Seq<TypeError>,
    e1: &Env,
    e2: &Env,
    args: Seq<Expr>,
)
    requires
        e1.frames() == e2.frames(),
        method_outcome(ctx, t, m, m_span, argc, span, r, new_errs, base, e1, args),
    ensures
        method_outcome(ctx, t, m, m_span, argc, span, r, new_errs, base, e2, args),
{
    lemma_known_ty_frames(e1, e2);
    assert(args_known(e1, args) == args_known(e2, args));
    assert forall|p: Seq<Ty>| args_known_fit(e1, args, p) == args_known_fit(e2, args, p) by {}
    assert forall|i: int, x: TyV| arg_mismatch(e1, args, i, x) == arg_mismatch(e2, args, i, x) by {}
}

/// What a method call yields and reports: `Enum.Variant(args)` where the
/// receiver names an enum, else a method of the receiver's type.
pub open spec fn method_call_outcome(ctx: &InferCtx, env: &Env, expr: Expr, r: Ty, new_errs: Seq<TypeError>) -> bool {
    method_parts(expr) matches Some((object, m, m_span)) ==> match receiver_enum(ctx, env, object) {
        Some(e) => qualified_variant_outcome(ctx, e, m, m_span, arg_count(expr), expr.spec_span(), r, new_errs),
        None => receiver_method_outcome(ctx, env, object, m, m_span, arg_count(expr), expr.spec_span(), r, new_errs,
            call_args(expr)),
    }
}

/// The declared return type of the function being checked (unit outside one).
pub open spec fn ret_view(ctx: &InferCtx) -> TyV {
    if ctx.current_return_ty@.len() > 0 { ctx.current_return_ty@.last()@ } else { TyV::Unit }
}

/// The errors after a condition of type `ct` is checked at `span`.
pub open spec fn after_condition(ct: Ty, span: Span, s1: Seq<TypeError>) -> Seq<TypeError> {
    if ct is Bool || ct is Error { s1 } else { s1.push(TypeError::NonBoolCondition { found: ct, span }) }
}

/// An `if` or `while` in terms of what inferring its parts yields and
/// reports: the condition (a non-`bool` one is reported at the whole
/// expression), then the first block, then for an `if` the `else` branch,
/// whose type must be the `then` type; a `while` and an `if` without `else`
/// are unit.
pub open spec fn branching_outcome(ctx: &InferCtx, env: &Env, expr: Expr, r: Ty, errs: Seq<TypeError>) -> bool {
    match expr {
        Expr::If { condition, then_block, else_branch, span } =>
            exists|ct: Ty, tt: Ty, s1: Seq<TypeError>, s3: Seq<TypeError>, e1: Env, c2: InferCtx, e2: Env| {
                &&& same_lookup(&e1, env) && #[trigger] expr_reports(ctx, &e1, *condition, ct, s1)
                &&& decls_same(&c2, ctx) && same_lookup(&e2, env) && c2.errors@ == after_condition(ct, span, s1)
                &&& #[trigger] body_value(&c2, &e2, *then_block, ret_view(ctx), tt, s3)
                &&& match else_branch {
                    None => r is Unit && errs == s3,
                    Some(x) => exists|et: Ty, s4: Seq<TypeError>, c3: InferCtx, e3: Env| {
                        &&& decls_same(&c3, ctx) && c3.errors@ == s3 && same_lookup(&e3, env)
                        &&& #[trigger] expr_reports(&c3, &e3, *x, et, s4)
                        &&& if !(tt is Error) && !(et is Error) && tt@ != et@ {
                            r is Error && errs == s4.push(TypeError::BranchMismatch { then: tt, else_: et, span })
                        } else {
                            r == tt && errs == s4
                        }
                    },
                }
            },
        Expr::While { condition, body, span } =>
            exists|ct: Ty, bt: Ty, s1: Seq<TypeError>, e1: Env, c2: InferCtx, e2: Env| {
                &&& same_lookup(&e1, env) && #[trigger] expr_reports(ctx, &e1, *condition, ct, s1)
                &&& decls_same(&c2, ctx) && same_lookup(&e2, env) && c2.errors@ == after_condition(ct, span, s1)
                &&& #[trigger] body_value(&c2, &e2, *body, ret_view(ctx), bt, errs)
                &&& r is Unit
            },
        _ => true,
    }
}

/// A method call on a receiver that is not an enum name, in terms of what
/// inferring the receiver yields and reports (as `infer_expr` states it):
/// the method is looked up on that type, after those errors.
pub open spec fn method_receiver_outcome(ctx: &InferCtx, env: &Env, expr: Expr, r: Ty, new_errs: Seq<TypeError>) -> bool {
    method_parts(expr) matches Some((object, m, m_span)) ==> (receiver_enum(ctx, env, object) is None ==>
        exists|t: Ty, base: Seq<TypeError>, e1: Env| {
            &&& same_lookup(&e1, env) && #[trigger] expr_reports(ctx, &e1, object, t, base)
            &&& method_outcome(ctx, t, m, m_span, arg_count(expr), expr.spec_span(), r, new_errs, base, env, call_args(expr))
        })
}

/// A method call `object.method(args)`: `Enum.Variant(args)` constructs a
/// tuple variant; otherwise the method is looked up on the receiver's type
/// (through one reference) and its arity and argument types are checked. A
/// `move self` method cannot be called through a reference.
#[verifier::rlimit(60)]
#[verifier::spinoff_prover]
fn infer_method_call(expr: &Expr, ctx: &mut InferCtx, env: &mut Env) -> (r: Ty)
    requires
        old(env).frames().len() > 0,
    ensures
        ctx_step(final(ctx), old(ctx)),
        final(env).frames() == old(env).frames(),
        method_call_outcome(old(ctx), old(env), *expr, r, final(ctx).errors@),
        method_receiver_outcome(old(ctx), old(env), *expr, r, final(ctx).errors@),
    decreases expr, 2nat,
{
    let (object, method, method_span, args, span) = match expr {
        Expr::MethodCall { object, method, method_span, args, span } => (object, method, *method_span, args, *span),
        _ => {
            return Ty::Error;
        },
    };
    // `EnumName.Variant(args)` — an enum name is not a value, so check before
    // inferring the receiver; a local binding of that name shadows the enum.
    if let Expr::Ident(ty_name, _) = &**object {
        if env.lookup(ty_name).is_none() {
            if let Some(e) = find_key(&ctx.enum_defs, ty_name) {
                if ctx.enum_defs[e].1.is_generic {
                    infer_args(expr, ctx, env);
                    return defer(ctx, "qualified variant on generic enum — requires type instantiation", span);
                }
                let variant_order = keys_of(&ctx.enum_defs[e].1.variants);
                let variant_fields = match find_key(&ctx.enum_defs[e].1.variants, method) {
                    Some(v) => Some(dup_tys(&ctx.enum_defs[e].1.variants[v].1)),
                    None => None,
                };
                let enum_name = ty_name.clone();
                match variant_fields {
                    None => {
                        infer_args(expr, ctx, env);
                        ctx.error(TypeError::VariantNotFound {
                            enum_name,
                            variant_name: method.clone(),
                            span: method_span,
                            available: variant_order,
                        });
                        return Ty::Error;
                    },
                    Some(field_tys) => {
                        if field_tys.len() == 0 {
                            infer_args(expr, ctx, env);
                            ctx.error(TypeError::UnitVariantCalledAsFunction { enum_name, variant_name: method.clone(), span });
                            return Ty::Error;
                        }
                        let qname = qualified(&enum_name, method);
                        if args.len() != field_tys.len() {
                            infer_args(expr, ctx, env);
                            let sugg = pass_exactly(field_tys.len(), " argument(s) to `", &qname, "`");
                            ctx.error(TypeError::VariantArgCountMismatch {
                                enum_name,
                                variant_name: method.clone(),
                                expected: field_tys.len(),
                                found: args.len(),
                                span,
                                suggestion: Some(sugg),
                            });
                            return Ty::Error;
                        }
                        check_variant_args(expr, &field_tys, "variant `", &qname, ctx, env);
                        return Ty::Named(enum_name);
                    },
                }
            }
        }
    }

    let ghost e0: Env = *env;
    let recv_ty = infer_expr(object, ctx, env);
    let ghost base = ctx.errors@;
    let ghost mid: Env = *env;
    proof {
        assert(expr_reports(old(ctx), &e0, **object, recv_ty, base));
        assert(same_lookup(&e0, old(env)));
    }
    let r = method_on_receiver(expr, &recv_ty, ctx, env);
    proof {
        lemma_method_outcome_frames(old(ctx), recv_ty, method@, method_span, arg_count(*expr), span, r, ctx.errors@,
            base, &mid, old(env), call_args(*expr));
        lemma_method_outcome_witness(old(ctx), old(env), **object, recv_ty, base, method@, method_span,
            arg_count(*expr), span, r, ctx.errors@, call_args(*expr));
        assert(expr_reports(old(ctx), &e0, **object, recv_ty, base));
    }
    r
}

/// The method part of a method call, on a receiver already inferred as
/// `recv_ty`: lookup on the type named behind at most one reference, then
/// the `move self` rule, generics, arity and argument types.
#[verifier::loop_isolation(false)]
#[verifier::rlimit(30)]
fn method_on_receiver(expr: &Expr, recv_ty: &Ty, ctx: &mut InferCtx, env: &mut Env) -> (r: Ty)
    requires
        old(env).frames().len() > 0,
        expr is MethodCall,
    ensures
        ctx_step(final(ctx), old(ctx)),
        final(env).frames() == old(env).frames(),
        method_parts(*expr) matches Some((_, m, m_span)) ==> method_outcome(old(ctx), *recv_ty, m, m_span,
            arg_count(*expr), expr.spec_span(), r, final(ctx).errors@, old(ctx).errors@, old(env), call_args(*expr)),
    decreases expr, 1nat,
{
    let (method, method_span, args, span) = match expr {
        Expr::MethodCall { method, method_span, args, span, .. } => (method, *method_span, args, *span),
        _ => {
            return Ty::Error;
        },
    };
    // No further errors on a receiver that already failed.
    if recv_ty.is_error() {
        infer_args(expr, ctx, env);
        return Ty::Error;
    }
    let ty_name = match dispatch_type_name(recv_ty) {
        Some(n) => n.clone(),
        None => {
            infer_args(expr, ctx, env);
            let shown = recv_ty.text();
            let mut sugg = String::new();
            push_str(&mut sugg, "type `");
            push_str(&mut sugg, shown.as_str());
            push_str(&mut sugg, "` has no impl block");
            ctx.error(TypeError::MethodNotFound { ty_name: shown, method_name: method.clone(), span: method_span, suggestion: Some(sugg) });
            return Ty::Error;
        },
    };
    let found: Option<FnSig> = match find_key(&ctx.impl_sigs, &ty_name) {
        Some(ns) => match find_key(&ctx.impl_sigs[ns].1, method) {
            Some(k) => Some(ctx.impl_sigs[ns].1[k].1.0.dup()),
            None => None,
        },
        None => None,
    };
    let sig = match found {
        Some(s) => s,
        None => {
            infer_args(expr, ctx, env);
            let available = match find_key(&ctx.impl_sigs, &ty_name) {
                Some(ns) => {
                    let ks = keys_of(&ctx.impl_sigs[ns].1);
                    proof {
                        assert(ks@ =~= ctx.impl_sigs@[ns as int].1@.map_values(|e: (String, (FnSig, Span))| e.0));
                    }
                    sorted_names(ks)
                },
                None => Vec::new(),
            };
            let ghost sigs = ctx.impl_sigs@;
            let ghost methods = if has_key(sigs, ty_name@) { sigs[first_key_index(sigs, ty_name@)].1@ } else {
                Seq::<(String, (FnSig, Span))>::empty() };
            proof {
                broadcast use vstd::seq_lib::group_to_multiset_ensures;
                assert(available@.to_multiset() == methods.map_values(|e: (String, (FnSig, Span))| e.0).to_multiset());
                assert(names_sorted(available@));
                assert(available@.len() == methods.len()) by {
                    assert(available@.to_multiset().len() == available@.len());
                    assert(methods.map_values(|e: (String, (FnSig, Span))| e.0).to_multiset().len()
                        == methods.map_values(|e: (String, (FnSig, Span))| e.0).len());
                }
            }
            let mut sugg = String::new();
            push_str(&mut sugg, "type `");
            push_str(&mut sugg, ty_name.as_str());
            if available.len() == 0 {
                push_str(&mut sugg, "` has no impl block");
            } else {
                push_str(&mut sugg, "` has methods: ");
                let ghost prefix = sugg@;
                let mut i: usize = 0;
                while i < available.len()
                    invariant
                        i <= available@.len(),
                        sugg@ == prefix + joined(available@.take(i as int)),
                    decreases available@.len() - i,
                {
                    proof {
                        assert(available@.take(i + 1).drop_last() =~= available@.take(i as int));
                    }
                    if i > 0 {
                        push_str(&mut sugg, ", ");
                    }
                    push_str(&mut sugg, available[i].as_str());
                    proof {
                        if i == 0 {
                            assert(joined(available@.take(0)) =~= Seq::<char>::empty());
                        }
                    }
                    i = i + 1;
                }
                proof {
                    assert(available@.take(available@.len() as int) =~= available@);
                }
            }
            proof {
                if available@.len() == 0 {
                    assert(sugg@ =~= "type `"@ + ty_name@ + "` has no impl block"@);
                } else {
                    assert(sugg@ =~= "type `"@ + ty_name@ + "` has methods: "@ + joined(available@));
                }
                assert(methods_suggestion(ty_name@, methods, sugg@));
            }
            ctx.error(TypeError::MethodNotFound { ty_name, method_name: method.clone(), span: method_span, suggestion: Some(sugg) });
            return Ty::Error;
        },
    };
    // Moving out of a borrowed receiver is a type-level violation.
    if sig.self_consuming && recv_ty.is_ref() {
        infer_args(expr, ctx, env);
        ctx.error(TypeError::ConsumeViaRef { ty_name, method_name: method.clone(), span });
        return Ty::Error;
    }
    if sig.is_generic {
        infer_args(expr, ctx, env);
        let r = defer(ctx, "generic method call instantiation — unification not yet implemented", span);
        return r;
    }
    let qname = qualified(&ty_name, method);
    if args.len() != sig.params.len() {
        infer_args(expr, ctx, env);
        let sugg = pass_exactly(sig.params.len(), " argument(s) to `", &qname, "`");
        let ghost before = ctx.errors@;
        ctx.error(TypeError::ArgCountMismatch {
            name: qname,
            expected: sig.params.len(),
            found: args.len(),
            span,
            suggestion: Some(sugg),
        });
        proof {
            assert(ctx.errors@.drop_last() =~= before);
        }
        return Ty::Error;
    }
    let any_error = check_args(expr, &sig.params, &qname, ctx, env);
    let r = if any_error { Ty::Error } else { sig.return_ty };
    r
}

/// The receiver, field name and field-name span of a field access.
pub open spec fn field_parts(expr: Expr) -> Option<(Expr, Seq<char>, Span)> {
    match expr {
        Expr::Field { object, field, field_span, .. } => Some((*object, field@, field_span)),
        _ => None,
    }
}

/// The index of the last entry keyed `key` (meaningful when there is one).
pub open spec fn last_key_index<V>(v: Seq<(String, V)>, key: Seq<char>) -> int {
    choose|i: int| 0 <= i < v.len() && #[trigger] v[i].0@ == key
        && forall|j: int| i < j < v.len() ==> #[trigger] v[j].0@ != key
}

/// An index keyed `key` with no such key after it is the last one.
pub proof fn lemma_last_key_index<V>(v: Seq<(String, V)>, key: Seq<char>, i: int)
    requires
        0 <= i < v.len(),
        v[i].0@ == key,
        forall|j: int| i < j < v.len() ==> #[trigger] v[j].0@ != key,
    ensures
        last_key_index(v, key) == i,
{
    let c = last_key_index(v, key);
    if c < i {
        assert(v[i].0@ != key);
    } else if c > i {
        assert(v[c].0@ != key);
    }
}

/// What `Enum.v` yields and reports when `e` names a declared enum and no
/// local binding: only a unit variant is a value.
pub open spec fn unit_variant_outcome(
    ctx: &InferCtx,
    e: Seq<char>,
    v: Seq<char>,
    v_span: Span,
    r: Ty,
    new_errs: Seq<TypeError>,
) -> bool {
    let defs = ctx.enum_defs@;
    let info = defs[first_key_index(defs, e)].1;
    let vs = info.variants@;
    if info.is_generic {
        r is Error && new_errs.last() is Deferred
    } else if !has_key(vs, v) {
        &&& r is Error
        &&& new_errs.last() matches TypeError::VariantNotFound { enum_name: a, variant_name: b, span: s, available }
        &&& a@ == e && b@ == v && s == v_span
        &&& available@.len() == vs.len()
        &&& forall|i: int| 0 <= i < vs.len() ==> #[trigger] available@[i] == vs[i].0
    } else if vs[first_key_index(vs, v)].1@.len() > 0 {
        &&& r is Error
        &&& new_errs.last() matches TypeError::TupleVariantUsedAsUnit { enum_name: a, variant_name: b, span: s }
        &&& a@ == e && b@ == v && s == v_span
    } else {
        r@ == TyV::Named(e)
    }
}

/// What reading field `f` of a value of type `t` yields and reports: the
/// field of the struct named behind at most one reference, its last
/// declaration winning; other types, undeclared and generic structs are
/// deferred.
pub open spec fn field_outcome(
    ctx: &InferCtx,
    t: Ty,
    f: Seq<char>,
    f_span: Span,
    r: Ty,
    new_errs: Seq<TypeError>,
) -> bool {
    let effective = match t {
        Ty::Ref { inner, .. } => *inner,
        _ => t,
    };
    let defs = ctx.struct_defs@;
    if t is Error {
        r is Error
    } else {
        match effective {
            Ty::Named(n) => {
                if !has_key(defs, n@) || defs[first_key_index(defs, n@)].1.is_generic {
                    r is Error && new_errs.last() is Deferred
                } else {
                    let fields = defs[first_key_index(defs, n@)].1.fields@;
                    if has_key(fields, f) {
                        r == fields[last_key_index(fields, f)].1
                    } else {
                        &&& r is Error
                        &&& new_errs.last() matches TypeError::FieldNotFound { ty_name: a, field_name: b, span: s, available }
                        &&& a@ == n@ && b@ == f && s == f_span
                        &&& available@.len() == fields.len()
                        &&& forall|i: int| 0 <= i < fields.len() ==> #[trigger] available@[i] == fields[i].0
                    }
                }
            },
            _ => r is Error && new_errs.last() is Deferred,
        }
    }
}

/// The outcome of a field read for some receiver type.
pub open spec fn some_field_outcome(ctx: &InferCtx, f: Seq<char>, f_span: Span, r: Ty, new_errs: Seq<TypeError>) -> bool {
    exists|t: Ty| field_outcome(ctx, t, f, f_span, r, new_errs)
}

/// What a field access on the non-enum receiver `object` yields and
/// reports: a name is resolved as an expression name is, another receiver
/// whose type needs no inference is of that type; the field is then read
/// from that type.
pub open spec fn receiver_field_outcome(ctx: &InferCtx, env: &Env, object: Expr, f: Seq<char>, f_span: Span, r: Ty, new_errs: Seq<TypeError>) -> bool {
    match object {
        Expr::Ident(n, s) => exists|t: Ty, base: Seq<TypeError>| #[trigger] ident_outcome(ctx, env, n@, s, t, base)
            && field_outcome(ctx, t, f, f_span, r, new_errs),
        _ => match known_ty(env, object) {
            Some(tv) => exists|t: Ty| t@ == tv && #[trigger] field_outcome(ctx, t, f, f_span, r, new_errs),
            None => some_field_outcome(ctx, f, f_span, r, new_errs),
        },
    }
}

/// An outcome for the receiver's own type is the receiver's outcome.
pub proof fn lemma_field_outcome_witness(ctx: &InferCtx, env: &Env, object: Expr, t: Ty, base: Seq<TypeError>,
    f: Seq<char>, f_span: Span, r: Ty, new_errs: Seq<TypeError>)
    requires
        field_outcome(ctx, t, f, f_span, r, new_errs),
        object matches Expr::Ident(n, s) ==> ident_outcome(ctx, env, n@, s, t, base),
        !(object is Ident) ==> (known_ty(env, object) matches Some(tv) ==> t@ == tv),
    ensures
        receiver_field_outcome(ctx, env, object, f, f_span, r, new_errs),
{
}

/// What a field access yields and reports: `Enum.Variant` where the
/// receiver names an enum, else a field of the receiver's type.
pub open spec fn field_access_outcome(ctx: &InferCtx, env: &Env, expr: Expr, r: Ty, new_errs: Seq<TypeError>) -> bool {
    field_parts(expr) matches Some((object, f, f_span)) ==> match receiver_enum(ctx, env, object) {
        Some(e) => unit_variant_outcome(ctx, e, f, f_span, r, new_errs),
        None => receiver_field_outcome(ctx, env, object, f, f_span, r, new_errs),
    }
}

/// A field access `object.field`: `Enum.Variant` names a unit variant;
/// otherwise the field is looked up in the struct behind at most one
/// reference. Access on other types, unknown or generic structs is deferred.
fn infer_field_access(expr: &Expr, ctx: &mut InferCtx, env: &mut Env) -> (r: Ty)
    requires
        old(env).frames().len() > 0,
    ensures
        ctx_step(final(ctx), old(ctx)),
        final(env).frames() == old(env).frames(),
        field_access_outcome(old(ctx), old(env), *expr, r, final(ctx).errors@),
    decreases expr, 1nat,
{
    let (object, field, field_span, span) = match expr {
        Expr::Field { object, field, field_span, span } => (object, field, *field_span, *span),
        _ => {
            return Ty::Error;
        },
    };
    if let Expr::Ident(ty_name, ty_name_span) = &**object {
        if env.lookup(ty_name).is_none() {
            if let Some(e) = find_key(&ctx.enum_defs, ty_name) {
                if ctx.enum_defs[e].1.is_generic {
                    return defer(ctx, "qualified variant on generic enum — requires type instantiation", span);
                }
                let variant_order = keys_of(&ctx.enum_defs[e].1.variants);
                let payload_len = match find_key(&ctx.enum_defs[e].1.variants, field) {
                    Some(v) => Some(ctx.enum_defs[e].1.variants[v].1.len()),
                    None => None,
                };
                let enum_name = ty_name.clone();
                // The enum name's own type, so that later checks see a variant, not a field.
                proof { lemma_record_keeps(ctx.type_map@, *ty_name_span, Ty::Named(enum_name)); }
                ctx.record(*ty_name_span, Ty::Named(enum_name.clone()));
                match payload_len {
                    None => {
                        ctx.error(TypeError::VariantNotFound {
                            enum_name,
                            variant_name: field.clone(),
                            span: field_span,
                            available: variant_order,
                        });
                        return Ty::Error;
                    },
                    Some(n) => {
                        if n > 0 {
                            ctx.error(TypeError::TupleVariantUsedAsUnit { enum_name, variant_name: field.clone(), span: field_span });
                            return Ty::Error;
                        }
                        return Ty::Named(enum_name);
                    },
                }
            }
        }
    }

    let obj_ty = infer_expr(object, ctx, env);
    let ghost base = ctx.errors@;
    let r = field_of_type(&obj_ty, field, field_span, span, ctx);
    proof {
        lemma_field_outcome_witness(old(ctx), old(env), **object, obj_ty, base, field@, field_span, r, ctx.errors@);
    }
    r
}

/// Reads field `field` of a value of type `obj_ty`.
fn field_of_type(obj_ty: &Ty, field: &String, field_span: Span, span: Span, ctx: &mut InferCtx) -> (r: Ty)
    ensures
        ctx_step(final(ctx), old(ctx)),
        final(ctx).type_map@ == old(ctx).type_map@,
        field_outcome(old(ctx), *obj_ty, field@, field_span, r, final(ctx).errors@),
{
    if obj_ty.is_error() {
        return Ty::Error;
    }
    let effective = match obj_ty {
        Ty::Ref { inner, .. } => (**inner).dup(),
        t => t.dup(),
    };
    let ty_name = match &effective {
        Ty::Named(n) => n.clone(),
        _ => {
            return defer(ctx, "field access on non-struct type", span);
        },
    };
    let idx = match find_key(&ctx.struct_defs, &ty_name) {
        Some(i) => i,
        None => {
            return defer(ctx, "field access — struct type not in table", span);
        },
    };
    if ctx.struct_defs[idx].1.is_generic {
        return defer(ctx, "field access on generic struct — requires type instantiation", span);
    }
    match find_last_key(&ctx.struct_defs[idx].1.fields, field) {
        Some(k) => {
            proof {
                lemma_last_key_index(ctx.struct_defs@[idx as int].1.fields@, field@, k as int);
            }
            ctx.struct_defs[idx].1.fields[k].1.dup()
        },
        None => {
            let available = keys_of(&ctx.struct_defs[idx].1.fields);
            ctx.error(TypeError::FieldNotFound { ty_name, field_name: field.clone(), span: field_span, available });
            Ty::Error
        },
    }
}

/// Whether a struct literal's field list initializes the field `f`.
pub open spec fn initializes(fields: Seq<StructFieldInit>, f: Seq<char>) -> bool {
    exists|i: int| 0 <= i < fields.len() && #[trigger] fields[i].name@ == f
}

/// A struct literal that leaves declared fields out reports, last, exactly
/// those fields.
/// The names of the declared fields before `upto` that `fields` does not
/// initialize, in declaration order.
pub open spec fn uninitialized(declared: Seq<(String, Ty)>, fields: Seq<StructFieldInit>, upto: int) -> Seq<Seq<char>>
    decreases upto,
{
    if upto <= 0 {
        Seq::empty()
    } else {
        let prev = uninitialized(declared, fields, upto - 1);
        if initializes(fields, declared[upto - 1].0@) { prev } else { prev.push(declared[upto - 1].0@) }
    }
}

pub open spec fn missing_fields_reported(
    declared: Seq<(String, Ty)>,
    fields: Seq<StructFieldInit>,
    name: Seq<char>,
    span: Span,
    new_errs: Seq<TypeError>,
) -> bool {
    (exists|k: int| 0 <= k < declared.len() && !initializes(fields, #[trigger] declared[k].0@)) ==> {
        &&& new_errs.last() matches TypeError::MissingStructFields { struct_name, missing, span: s }
        &&& struct_name@ == name && s == span
        &&& forall|m: int| 0 <= m < missing@.len() ==> exists|k: int| 0 <= k < declared.len()
            && #[trigger] missing@[m]@ == declared[k].0@ && !initializes(fields, declared[k].0@)
        &&& forall|k: int| 0 <= k < declared.len() && !initializes(fields, #[trigger] declared[k].0@)
            ==> exists|m: int| 0 <= m < missing@.len() && missing@[m]@ == declared[k].0@
        &&& missing@.len() == uninitialized(declared, fields, declared.len() as int).len()
        &&& forall|m: int| 0 <= m < missing@.len() ==> #[trigger] missing@[m]@ == uninitialized(declared, fields, declared.len() as int)[m]
    }
}

/// What a struct literal yields and reports: its struct's type where the
/// struct is declared and not generic, whatever its fields hold; declared
/// fields left out are reported.
pub open spec fn struct_lit_outcome(ctx: &InferCtx, expr: Expr, r: Ty, new_errs: Seq<TypeError>) -> bool {
    let defs = ctx.struct_defs@;
    expr matches Expr::StructLit { name, name_span, .. } ==> if !has_key(defs, name@) {
        &&& r is Error
        &&& new_errs.last() matches TypeError::UndefinedStruct { name: a, span: s }
        &&& a@ == name@ && s == name_span
    } else if defs[first_key_index(defs, name@)].1.is_generic {
        r is Error && new_errs.last() is Deferred
    } else {
        &&& r@ == TyV::Named(name@)
        &&& expr matches Expr::StructLit { fields, span, .. } && missing_fields_reported(
            defs[first_key_index(defs, name@)].1.fields@, fields@, name@, span, new_errs)
        &&& forall|j: int| 0 <= j < lit_fields(expr).len() && #[trigger] field_repeats(lit_fields(expr), j)
            ==> dup_field_reported(new_errs, ctx.errors@.len() as int, lit_fields(expr)[j].name@, lit_fields(expr)[j].name_span)
        &&& forall|j: int| 0 <= j < lit_fields(expr).len() && !field_repeats(lit_fields(expr), j)
            && !has_key(defs[first_key_index(defs, name@)].1.fields@, (#[trigger] lit_fields(expr)[j]).name@)
            ==> unknown_field_reported(new_errs, ctx.errors@.len() as int, lit_fields(expr)[j].name@, lit_fields(expr)[j].name_span)
    }
}

/// Initializer `j` names a field already given before it.
pub open spec fn field_repeats(fields: Seq<StructFieldInit>, j: int) -> bool {
    exists|i: int| 0 <= i < j && fields[i].name@ == fields[j].name@
}

/// Among the errors from `from` on, one reports field `f` given again at `span`.
pub open spec fn dup_field_reported(errs: Seq<TypeError>, from: int, f: Seq<char>, span: Span) -> bool {
    exists|k: int| from <= k < errs.len() && #[trigger] errs[k] is DuplicateStructField
        && errs[k]->DuplicateStructField_field_name@ == f && errs[k]->DuplicateStructField_duplicate_span == span
}

/// Among the errors from `from` on, one reports field `f` at `span` as not
/// a field of the struct.
pub open spec fn unknown_field_reported(errs: Seq<TypeError>, from: int, f: Seq<char>, span: Span) -> bool {
    exists|k: int| from <= k < errs.len() && #[trigger] errs[k] is FieldNotFound
        && errs[k]->FieldNotFound_field_name@ == f && errs[k]->FieldNotFound_span == span
}

/// Field reports stay among errors that only accumulate.
pub proof fn lemma_field_reports_kept(later: Seq<TypeError>, earlier: Seq<TypeError>)
    requires
        extends(later, earlier),
    ensures
        forall|from: int, f: Seq<char>, span: Span| 0 <= from && dup_field_reported(earlier, from, f, span)
            ==> #[trigger] dup_field_reported(later, from, f, span),
        forall|from: int, f: Seq<char>, span: Span| 0 <= from && unknown_field_reported(earlier, from, f, span)
            ==> #[trigger] unknown_field_reported(later, from, f, span),
{
    assert forall|k: int| 0 <= k < earlier.len() implies later[k] == #[trigger] earlier[k] by {}
}

/// The fields of a struct literal.
pub open spec fn lit_fields(expr: Expr) -> Seq<StructFieldInit> {
    match expr {
        Expr::StructLit { fields, .. } => fields@,
        _ => Seq::empty(),
    }
}

/// Checks the field initializers of the struct literal `expr` of struct
/// `name` (declared fields `field_types`, in order `field_order`): a field
/// given twice, an unknown field and a value of the wrong type are
/// reported. Returns the first occurrence of each field given.
#[verifier::rlimit(80)]
#[verifier::spinoff_prover]
fn check_field_inits(
    expr: &Expr,
    name: &String,
    field_types: &Vec<(String, Ty)>,
    field_order: &Vec<String>,
    ctx: &mut InferCtx,
    env: &mut Env,
) -> (seen: Vec<(String, Span)>)
    requires
        old(env).frames().len() > 0,
    ensures
        ctx_step(final(ctx), old(ctx)),
        final(env).frames() == old(env).frames(),
        forall|f: Seq<char>| has_key(seen@, f) <==> #[trigger] initializes(lit_fields(*expr), f),
        forall|j: int| 0 <= j < lit_fields(*expr).len() && #[trigger] field_repeats(lit_fields(*expr), j)
            ==> dup_field_reported(final(ctx).errors@, old(ctx).errors@.len() as int, lit_fields(*expr)[j].name@,
                lit_fields(*expr)[j].name_span),
        forall|j: int| 0 <= j < lit_fields(*expr).len() && !field_repeats(lit_fields(*expr), j)
            && !has_key(field_types@, (#[trigger] lit_fields(*expr)[j]).name@)
            ==> unknown_field_reported(final(ctx).errors@, old(ctx).errors@.len() as int, lit_fields(*expr)[j].name@,
                lit_fields(*expr)[j].name_span),
    decreases expr, 0nat,
{
    let fields = match expr {
        Expr::StructLit { fields, .. } => fields,
        _ => {
            return Vec::new();
        },
    };
    let mut seen: Vec<(String, Span)> = Vec::new();
    let mut i: usize = 0;
    while i < fields.len()
        invariant
            i <= fields@.len(),
            ctx_step(ctx, old(ctx)),
            env.frames() == old(env).frames(),
            *expr matches Expr::StructLit { fields: f, .. } && f == fields,
            forall|k: int| 0 <= k < seen@.len() ==> initializes(fields@.take(i as int), #[trigger] seen@[k].0@),
            forall|j: int| 0 <= j < i ==> has_key(seen@, (#[trigger] fields@[j]).name@),
            lit_fields(*expr) == fields@,
            old(env).frames().len() > 0,
            forall|j: int| 0 <= j < i && #[trigger] field_repeats(fields@, j)
                ==> dup_field_reported(ctx.errors@, old(ctx).errors@.len() as int, fields@[j].name@, fields@[j].name_span),
            forall|j: int| 0 <= j < i && !field_repeats(fields@, j) && !has_key(field_types@, (#[trigger] fields@[j]).name@)
                ==> unknown_field_reported(ctx.errors@, old(ctx).errors@.len() as int, fields@[j].name@, fields@[j].name_span),
        decreases fields@.len() - i,
    {
        let fi = &fields[i];
        let ghost errs0 = ctx.errors@;
        proof {
            assert(decreases_to!(expr => fields@[i as int].value));
        }
        let ghost seen0 = seen@;
        match find_key(&seen, &fi.name) {
            Some(k) => {
                let first_span = seen[k].1;
                ctx.error(TypeError::DuplicateStructField {
                    struct_name: name.clone(),
                    field_name: fi.name.clone(),
                    first_span,
                    duplicate_span: fi.name_span,
                });
                proof {
                    assert(ctx.errors@[errs0.len() as int] is DuplicateStructField);
                    let e1 = ctx.errors@;
                    assert(dup_field_reported(e1, old(ctx).errors@.len() as int, fields@[i as int].name@, fields@[i as int].name_span));
                    let w = choose|w: int| 0 <= w < fields@.take(i as int).len()
                        && #[trigger] fields@.take(i as int)[w].name@ == seen@[k as int].0@;
                    assert(fields@[w] == fields@.take(i as int)[w]);
                    assert(field_repeats(fields@, i as int));
                }
                let ghost e1 = ctx.errors@;
                infer_expr(&fi.value, ctx, env);
                proof {
                    lemma_field_reports_kept(ctx.errors@, e1);
                }
            },
            None => {
                seen.push((fi.name.clone(), fi.name_span));
                proof {
                    lemma_push_keys(seen0, (fi.name, fi.name_span));
                    assert(seen@[seen0.len() as int].0@ == fields@[i as int].name@);
                    assert forall|k: int| 0 <= k < seen@.len() implies initializes(fields@.take(i + 1), #[trigger] seen@[k].0@) by {
                        if k < seen0.len() {
                            assert(seen@[k] == seen0[k]);
                            let j = choose|j: int| 0 <= j < fields@.take(i as int).len()
                                && #[trigger] fields@.take(i as int)[j].name@ == seen0[k].0@;
                            assert(fields@.take(i + 1)[j] == fields@.take(i as int)[j]);
                        } else {
                            assert(fields@.take(i + 1)[i as int] == fields@[i as int]);
                        }
                    }
                    assert forall|j: int| 0 <= j < i + 1 implies has_key(seen@, (#[trigger] fields@[j]).name@) by {
                        if j < i {
                            assert(has_key(seen0, fields@[j].name@));
                        }
                    }
                }
                let val_ty = infer_expr(&fi.value, ctx, env);
                proof {
                    if field_repeats(fields@, i as int) {
                        let w = choose|w: int| 0 <= w < i && fields@[w].name@ == fields@[i as int].name@;
                        assert(has_key(seen0, fields@[w].name@));
                    }
                }
                match find_last_key(field_types, &fi.name) {
                    None => {
                        let ghost pre = ctx.errors@;
                        ctx.error(TypeError::FieldNotFound {
                            ty_name: name.clone(),
                            field_name: fi.name.clone(),
                            span: fi.name_span,
                            available: dup_strings(field_order),
                        });
                        proof {
                            assert(ctx.errors@[pre.len() as int] is FieldNotFound);
                            assert(unknown_field_reported(ctx.errors@, old(ctx).errors@.len() as int, fields@[i as int].name@,
                                fields@[i as int].name_span));
                        }
                    },
                    Some(k) => {
                        let expected = &field_types[k].1;
                        if !val_ty.is_error() && !expected.same(&val_ty) {
                            let mut sugg = String::new();
                            push_str(&mut sugg, "field `");
                            push_str(&mut sugg, fi.name.as_str());
                            push_str(&mut sugg, "` of `");
                            push_str(&mut sugg, name.as_str());
                            push_str(&mut sugg, "` expects `");
                            expected.push_debug(&mut sugg);
                            push_str(&mut sugg, "`");
                            ctx.error(TypeError::Mismatch {
                                expected: expected.dup(),
                                found: val_ty,
                                span: fi.value.span(),
                                suggestion: Some(sugg),
                            });
                        }
                    },
                }
            },
        }
        proof {
            lemma_field_reports_kept(ctx.errors@, errs0);
        }
        i = i + 1;
    }
    proof {
        assert(fields@.take(i as int) =~= fields@);
        assert forall|f: Seq<char>| has_key(seen@, f) <==> #[trigger] initializes(fields@, f) by {
            if has_key(seen@, f) {
                let k = choose|k: int| 0 <= k < seen@.len() && #[trigger] seen@[k].0@ == f;
                assert(initializes(fields@.take(i as int), seen@[k].0@));
            }
            if initializes(fields@, f) {
                let j = choose|j: int| 0 <= j < fields@.len() && #[trigger] fields@[j].name@ == f;
                assert(has_key(seen@, fields@[j].name@));
            }
        }
    }
    seen
}

/// Reports the declared fields (`declared`, named in order by `order`) that
/// the literal's field list leaves out, if any: `seen` holds a name exactly
/// when the list initializes it.
#[verifier::loop_isolation(false)]
#[verifier::spinoff_prover]
fn report_missing(
    order: &Vec<String>,
    seen: &Vec<(String, Span)>,
    name: &String,
    span: Span,
    Ghost(declared): Ghost<Seq<(String, Ty)>>,
    Ghost(fields): Ghost<Seq<StructFieldInit>>,
    ctx: &mut InferCtx,
)
    requires
        order@.len() == declared.len(),
        forall|q: int| 0 <= q < declared.len() ==> #[trigger] order@[q] == declared[q].0,
        forall|q: int| 0 <= q < order@.len() ==> (has_key(seen@, #[trigger] order@[q]@) <==> initializes(fields, order@[q]@)),
    ensures
        tables_same(final(ctx), old(ctx)),
        final(ctx).type_map@ == old(ctx).type_map@,
        extends(final(ctx).errors@, old(ctx).errors@),
        missing_fields_reported(declared, fields, name@, span, final(ctx).errors@),
{
    let mut missing: Vec<String> = Vec::new();
    let mut k: usize = 0;
    while k < order.len()
        invariant
            k <= order@.len(),
            forall|m: int| 0 <= m < missing@.len() ==> exists|q: int| 0 <= q < k
                && #[trigger] missing@[m]@ == declared[q].0@ && !initializes(fields, declared[q].0@),
            forall|q: int| 0 <= q < k && !initializes(fields, #[trigger] declared[q].0@)
                ==> exists|m: int| 0 <= m < missing@.len() && missing@[m]@ == declared[q].0@,
            (missing@.len() == 0) == (forall|q: int| 0 <= q < k ==> initializes(fields, #[trigger] declared[q].0@)),
            missing@.len() == uninitialized(declared, fields, k as int).len(),
            forall|m: int| 0 <= m < missing@.len() ==> #[trigger] missing@[m]@ == uninitialized(declared, fields, k as int)[m],
        decreases order@.len() - k,
    {
        let absent = find_key(seen, &order[k]).is_none();
        proof {
            assert(order@[k as int] == declared[k as int].0);
            assert(has_key(seen@, order@[k as int]@) <==> initializes(fields, order@[k as int]@));
        }
        if absent {
            let ghost before = missing@;
            missing.push(order[k].clone());
            proof {
                assert(missing@[before.len() as int]@ == declared[k as int].0@);
                assert forall|m: int| 0 <= m < missing@.len() implies exists|q: int| 0 <= q < k + 1
                    && #[trigger] missing@[m]@ == declared[q].0@ && !initializes(fields, declared[q].0@) by {
                    if m < before.len() {
                        assert(missing@[m] == before[m]);
                    }
                }
                assert forall|q: int| 0 <= q < k + 1 && !initializes(fields, #[trigger] declared[q].0@)
                    implies exists|m: int| 0 <= m < missing@.len() && missing@[m]@ == declared[q].0@ by {
                    if q < k {
                        let m = choose|m: int| 0 <= m < before.len() && before[m]@ == declared[q].0@;
                        assert(missing@[m] == before[m]);
                    }
                }
            }
        }
        k = k + 1;
    }
    if missing.len() > 0 {
        ctx.error(TypeError::MissingStructFields { struct_name: name.clone(), missing, span });
    }
}

/// A struct literal `Name { field = value, .. }`: every field of the struct
/// initialized exactly once, with a value of the field's type.
#[verifier::loop_isolation(false)]
fn infer_struct_lit(expr: &Expr, ctx: &mut InferCtx, env: &mut Env) -> (r: Ty)
    requires
        old(env).frames().len() > 0,
    ensures
        ctx_step(final(ctx), old(ctx)),
        final(env).frames() == old(env).frames(),
        struct_lit_outcome(old(ctx), *expr, r, final(ctx).errors@),
    decreases expr, 1nat,
{
    let (name, name_span, fields, span) = match expr {
        Expr::StructLit { name, name_span, fields, span } => (name, *name_span, fields, *span),
        _ => {
            return Ty::Error;
        },
    };
    let idx = match find_key(&ctx.struct_defs, name) {
        Some(i) => i,
        None => {
            ctx.error(TypeError::UndefinedStruct { name: name.clone(), span: name_span });
            return Ty::Error;
        },
    };
    if ctx.struct_defs[idx].1.is_generic {
        return defer(ctx, "struct literal of generic struct — requires type instantiation", span);
    }
    let field_order = keys_of(&ctx.struct_defs[idx].1.fields);
    let ghost declared = ctx.struct_defs@[idx as int].1.fields@;
    let mut field_types: Vec<(String, Ty)> = Vec::new();
    let mut t: usize = 0;
    while t < ctx.struct_defs[idx].1.fields.len()
        invariant
            idx < ctx.struct_defs@.len(),
            t <= ctx.struct_defs@[idx as int].1.fields@.len(),
            declared == ctx.struct_defs@[idx as int].1.fields@,
            field_types@.len() == t,
            forall|q: int| 0 <= q < t ==> #[trigger] field_types@[q].0@ == declared[q].0@,
        decreases ctx.struct_defs@[idx as int].1.fields@.len() - t,
    {
        let (fname, fty) = (&ctx.struct_defs[idx].1.fields[t].0, &ctx.struct_defs[idx].1.fields[t].1);
        field_types.push((fname.clone(), fty.dup()));
        t = t + 1;
    }
    let seen = check_field_inits(expr, name, &field_types, &field_order, ctx, env);
    proof {
        assert(lit_fields(*expr) == fields@);
        assert forall|q: int| 0 <= q < field_order@.len() implies
            (has_key(seen@, #[trigger] field_order@[q]@) <==> initializes(fields@, field_order@[q]@)) by {
            assert(has_key(seen@, field_order@[q]@) <==> initializes(lit_fields(*expr), field_order@[q]@));
        }
    }
    proof {
        assert forall|nm: Seq<char>| has_key(declared, nm) implies #[trigger] has_key(field_types@, nm) by {
            let q = choose|q: int| 0 <= q < declared.len() && #[trigger] declared[q].0@ == nm;
            assert(field_types@[q].0@ == nm);
        }
    }
    let ghost e1 = ctx.errors@;
    report_missing(&field_order, &seen, name, span, Ghost(declared), Ghost(fields@), ctx);
    proof {
        lemma_field_reports_kept(ctx.errors@, e1);
    }
    Ty::Named(name.clone())
}

} // verus!
