//! The inference pass: declaration collection, then body checking.
use vstd::prelude::*;
use crate::ast::{Ast, Block, CopyMove, EnumDef, EnumVariant, Expr, FunctionDef, ImplBlock, Item, Stmt, StructDef, Type};
use crate::lexer::Span;
use crate::text::{owned, push_str};
use super::env::{find_key, first_key_index, has_key, lemma_first_key_index, keys_kept, lemma_names_same_keys_kept, lemma_push_keys, map_kept, names_same, lemma_record_keeps, lemma_record_then_type_of, type_at, Env, EnumInfo, InferCtx, StructInfo};
pub use super::env::{ctx_step, extends, tables_same};
use super::error::{is_fatal_error, TypeError};
use super::ty::{FnSig, Ty, TyV};
use super::InferResult;

pub mod convert;
pub mod ops;
pub mod expr;
pub mod stmt;
pub mod pattern;
pub mod self_access;

verus! {

/// Reports `feature` as accepted but not yet checked, and yields `Ty::Error`.
pub fn defer(ctx: &mut InferCtx, feature: &str, span: Span) -> (r: Ty)
    ensures
        r is Error,
        tables_same(final(ctx), old(ctx)),
        final(ctx).type_map@ == old(ctx).type_map@,
        extends(final(ctx).errors@, old(ctx).errors@),
        final(ctx).errors@.len() == old(ctx).errors@.len() + 1,
        final(ctx).errors@.drop_last() == old(ctx).errors@,
        final(ctx).errors@.last() matches TypeError::Deferred { feature: f, span: s } && f@ == feature@ && s == span,
{
    let f = owned(feature);
    ctx.error(TypeError::Deferred { feature: f, span });
    proof {
        assert(ctx.errors@.drop_last() =~= old(ctx).errors@);
    }
    Ty::Error
}

/// Reports a mismatch when `found` is not `expected`, unless either is
/// `Ty::Error` (a cascade of an error already reported).
pub fn check_types(expected: &Ty, found: &Ty, span: Span, ctx: &mut InferCtx, suggestion: Option<String>)
    ensures
        tables_same(final(ctx), old(ctx)),
        final(ctx).type_map@ == old(ctx).type_map@,
        extends(final(ctx).errors@, old(ctx).errors@),
        (*expected is Error || *found is Error || expected@ == found@) ==> final(ctx).errors@ == old(ctx).errors@,
        !(*expected is Error || *found is Error || expected@ == found@) ==> final(ctx).errors@
            == old(ctx).errors@.push(TypeError::Mismatch { expected: *expected, found: *found, span, suggestion }),
{
    if expected.is_error() || found.is_error() {
        return;
    }
    if !expected.same(found) {
        ctx.error(TypeError::Mismatch { expected: expected.dup(), found: found.dup(), span, suggestion });
    }
}

/// An identical copy of a list of names.
#[verifier::loop_isolation(false)]
pub fn dup_strings(v: &Vec<String>) -> (r: Vec<String>)
    ensures
        r@ == v@,
{
    let mut out: Vec<String> = Vec::new();
    let mut i: usize = 0;
    while i < v.len()
        invariant
            i <= v@.len(),
            out@ == v@.subrange(0, i as int),
        decreases v@.len() - i,
    {
        out.push(v[i].clone());
        i = i + 1;
    }
    out
}

/// The copy modifier of a named type, if it has one.
pub open spec fn named_override(ctx: &InferCtx, name: Seq<char>) -> Option<Option<CopyMove>> {
    if exists|i: int| 0 <= i < ctx.struct_defs@.len() && #[trigger] ctx.struct_defs@[i].0@ == name {
        let i = choose|i: int| 0 <= i < ctx.struct_defs@.len() && #[trigger] ctx.struct_defs@[i].0@ == name
            && forall|j: int| 0 <= j < i ==> #[trigger] ctx.struct_defs@[j].0@ != name;
        Some(ctx.struct_defs@[i].1.copy_override)
    } else {
        None
    }
}

/// The Copy rule, looking through at most `fuel` named types: primitives
/// and shared references are Copy; `&mut`, strings, open and unknown types
/// are not; a struct or enum follows its `copy`/`move` modifier, or else is
/// Copy exactly when all its field (or payload) types are.
pub open spec fn copy_rule(ctx: &InferCtx, ty: Ty, fuel: nat) -> bool
    decreases fuel,
{
    match ty {
        Ty::I32 | Ty::F64 | Ty::Bool | Ty::Char | Ty::Unit => true,
        Ty::Ref { mutable, .. } => !mutable,
        Ty::Named(n) => {
            let sd = ctx.struct_defs@;
            let ed = ctx.enum_defs@;
            if fuel == 0 {
                false
            } else if has_key(sd, n@) {
                let info = sd[first_key_index(sd, n@)].1;
                match info.copy_override {
                    Some(CopyMove::Copy) => true,
                    Some(CopyMove::Move) => false,
                    None => forall|k: int| 0 <= k < info.fields@.len()
                        ==> copy_rule(ctx, #[trigger] info.fields@[k].1, (fuel - 1) as nat),
                }
            } else if has_key(ed, n@) {
                let info = ed[first_key_index(ed, n@)].1;
                match info.copy_override {
                    Some(CopyMove::Copy) => true,
                    Some(CopyMove::Move) => false,
                    None => forall|k: int, m: int| 0 <= k < info.variants@.len() && 0 <= m < info.variants@[k].1@.len()
                        ==> copy_rule(ctx, #[trigger] info.variants@[k].1@[m], (fuel - 1) as nat),
                }
            } else {
                false
            }
        },
        _ => false,
    }
}

/// Whether values of `ty` are Copy: primitives and shared references are,
/// `&mut T` and unknown or open types are not; a struct or enum follows its
/// `copy`/`move` modifier, or else is Copy when all its field types are.
/// `fuel` bounds the descent through named types (the number of declared
/// types suffices unless declarations refer to themselves).
#[verifier::loop_isolation(false)]
pub fn is_copy(ty: &Ty, ctx: &InferCtx, fuel: usize) -> (r: bool)
    ensures
        (*ty is I32 || *ty is F64 || *ty is Bool || *ty is Char || *ty is Unit) ==> r,
        (*ty is Str || *ty is Param || *ty is TyVar || *ty is Error) ==> !r,
        *ty matches Ty::Ref { mutable, .. } ==> r == !mutable,
        *ty matches Ty::Named(n) ==> (fuel > 0 && named_override(ctx, n@) == Some(Some(CopyMove::Copy)) ==> r),
        *ty matches Ty::Named(n) ==> (fuel > 0 && named_override(ctx, n@) == Some(Some(CopyMove::Move)) ==> !r),
        r == copy_rule(ctx, *ty, fuel as nat),
    decreases fuel,
{
    match ty {
        Ty::I32 | Ty::F64 | Ty::Bool | Ty::Char | Ty::Unit => true,
        Ty::Ref { mutable, .. } => !*mutable,
        Ty::Str | Ty::Param(_) | Ty::TyVar(_) | Ty::Error => false,
        Ty::Named(name) => {
            if fuel == 0 {
                return false;
            }
            match find_key(&ctx.struct_defs, name) {
                Some(i) => {
                    proof {
                        assert(ctx.struct_defs@[i as int].0@ == name@);
                    }
                    let info = &ctx.struct_defs[i].1;
                    match info.copy_override {
                        Some(CopyMove::Copy) => true,
                        Some(CopyMove::Move) => false,
                        None => {
                            let mut k: usize = 0;
                            while k < info.fields.len()
                                invariant
                                    k <= info.fields@.len(),
                                    forall|q: int| 0 <= q < k ==> copy_rule(ctx, #[trigger] info.fields@[q].1, (fuel - 1) as nat),
                                decreases info.fields@.len() - k,
                            {
                                if !is_copy(&info.fields[k].1, ctx, fuel - 1) {
                                    return false;
                                }
                                k = k + 1;
                            }
                            true
                        },
                    }
                },
                None => match find_key(&ctx.enum_defs, name) {
                    Some(i) => {
                        let info = &ctx.enum_defs[i].1;
                        match info.copy_override {
                            Some(CopyMove::Copy) => true,
                            Some(CopyMove::Move) => false,
                            None => {
                                let mut k: usize = 0;
                                while k < info.variants.len()
                                    invariant
                                        k <= info.variants@.len(),
                                        forall|q: int, w: int| 0 <= q < k && 0 <= w < info.variants@[q].1@.len()
                                            ==> copy_rule(ctx, #[trigger] info.variants@[q].1@[w], (fuel - 1) as nat),
                                    decreases info.variants@.len() - k,
                                {
                                    let fields = &info.variants[k].1;
                                    let mut m: usize = 0;
                                    while m < fields.len()
                                        invariant
                                            m <= fields@.len(),
                                            fields@ == info.variants@[k as int].1@,
                                            forall|q: int, w: int| 0 <= q < k && 0 <= w < info.variants@[q].1@.len()
                                                ==> copy_rule(ctx, #[trigger] info.variants@[q].1@[w], (fuel - 1) as nat),
                                            forall|w: int| 0 <= w < m ==> copy_rule(ctx, #[trigger] fields@[w], (fuel - 1) as nat),
                                        decreases fields@.len() - m,
                                    {
                                        if !is_copy(&fields[m], ctx, fuel - 1) {
                                            return false;
                                        }
                                        m = m + 1;
                                    }
                                    k = k + 1;
                                }
                                true
                            },
                        }
                    },
                    None => false,
                },
            }
        },
    }
}

/// The descent bound for `is_copy`: one step per declared type, plus one.
pub fn copy_fuel(ctx: &InferCtx) -> (r: usize)
    ensures
        r == (if ctx.struct_defs@.len() + ctx.enum_defs@.len() + 1 <= usize::MAX {
            ctx.struct_defs@.len() + ctx.enum_defs@.len() + 1
        } else {
            usize::MAX as nat
        }),
{
    let n = ctx.struct_defs.len();
    let m = ctx.enum_defs.len();
    if n < usize::MAX - m {
        n + m + 1
    } else {
        usize::MAX
    }
}

/// The type name behind at most one reference, or `<unknown>`.
pub fn named_base_deref(ty: &Ty) -> (r: String)
    ensures
        *ty matches Ty::Named(n) ==> r@ == n@,
        *ty matches Ty::Ref { inner, .. } ==> (*inner matches Ty::Named(n) ==> r@ == n@),
{
    match ty {
        Ty::Named(n) => n.clone(),
        Ty::Ref { inner, .. } => match &**inner {
            Ty::Named(n) => n.clone(),
            _ => owned("<unknown>"),
        },
        _ => owned("<unknown>"),
    }
}

/// The type whose Copy-ness decides whether reading a field of `object`
/// moves out of it: the object's recorded type with one reference removed
/// (`<error>` when none is recorded).
pub open spec fn moved_from_ty(ctx: &InferCtx, object: Expr) -> TyV {
    match type_at(ctx.type_map@, object.spec_span()) {
        Some(TyV::Ref { inner, .. }) => *inner,
        Some(t) => t,
        None => TyV::Error,
    }
}

/// The type recorded at `span`, `<error>` when none is.
pub open spec fn recorded_or_error(ctx: &InferCtx, span: Span) -> TyV {
    match type_at(ctx.type_map@, span) {
        Some(t) => t,
        None => TyV::Error,
    }
}

/// Reading a field of type `field_ty` out of `object` is a move out of a
/// value that is not Copy: a string, an open or unknown type, a `&mut`, or a
/// struct declared `move`.
pub open spec fn field_move_fires(ctx: &InferCtx, object: Expr, field_ty: TyV) -> bool {
    let st = moved_from_ty(ctx, object);
    &&& !(field_ty is Error)
    &&& st is Str || st is Param || st is TyVar || st is Error || (st matches TyV::Ref { mutable, .. } && mutable)
        || (st matches TyV::Named(n) && !has_key(ctx.enum_defs@, n)
            && named_override(ctx, n) == Some(Some(CopyMove::Move)))
}

/// Reading a field of type `field_ty` out of `object` moves nothing: the
/// field's type is unknown, the value is of a primitive type or a shared
/// reference, it names an enum (`Enum.Variant` constructs), or a struct
/// declared `copy`.
pub open spec fn field_move_silent(ctx: &InferCtx, object: Expr, field_ty: TyV) -> bool {
    let st = moved_from_ty(ctx, object);
    ||| field_ty is Error
    ||| st is I32 || st is F64 || st is Bool || st is Char || st is Unit
    ||| st matches TyV::Ref { mutable, .. } && !mutable
    ||| st matches TyV::Named(n) && (has_key(ctx.enum_defs@, n) || named_override(ctx, n) == Some(Some(CopyMove::Copy)))
}

/// Reports `FieldOwnNonCopy` when the field at `field_span` is moved out of
/// a value whose struct type is not Copy; returns whether it reported.
pub fn check_field_own_non_copy(object: &Expr, field: &String, field_span: Span, field_ty: &Ty, ctx: &mut InferCtx) -> (r: bool)
    ensures
        tables_same(final(ctx), old(ctx)),
        final(ctx).type_map@ == old(ctx).type_map@,
        extends(final(ctx).errors@, old(ctx).errors@),
        !r ==> final(ctx).errors@ == old(ctx).errors@,
        r ==> (final(ctx).errors@.len() == old(ctx).errors@.len() + 1
            && final(ctx).errors@.drop_last() == old(ctx).errors@
            && final(ctx).errors@.last() is FieldOwnNonCopy),
        *field_ty is Error ==> !r,
        r ==> (final(ctx).errors@.last() matches TypeError::FieldOwnNonCopy { field_name, span, .. }
            && field_name@ == field@ && span == field_span),
        field_move_fires(old(ctx), *object, field_ty@) ==> r,
        field_move_silent(old(ctx), *object, field_ty@) ==> !r,
{
    if field_ty.is_error() {
        return false;
    }
    let obj_ty = match ctx.type_of(object.span()) {
        Some(t) => t.dup(),
        None => Ty::Error,
    };
    let struct_ty = match &obj_ty {
        Ty::Ref { inner, .. } => (**inner).dup(),
        t => t.dup(),
    };
    assert(struct_ty@ == moved_from_ty(old(ctx), *object));
    // `Enum.Variant` parses as a field access but constructs a value: no partial move.
    if let Ty::Named(name) = &struct_ty {
        if find_key(&ctx.enum_defs, name).is_some() {
            return false;
        }
    }
    let fuel = copy_fuel(ctx);
    if is_copy(&struct_ty, ctx, fuel) {
        proof {
            if let Ty::Named(n) = struct_ty {
                assert(struct_ty@ == TyV::Named(n@));
            }
        }
        return false;
    }
    proof {
        if let Ty::Named(n) = struct_ty {
            assert(struct_ty@ == TyV::Named(n@));
        }
    }
    let e = TypeError::FieldOwnNonCopy { ty_name: named_base_deref(&obj_ty), field_name: field.clone(), span: field_span };
    ctx.error(e);
    proof {
        assert(ctx.errors@.drop_last() =~= old(ctx).errors@);
    }
    true
}

/// `FieldOwnNonCopy` through the positions whose value an expression yields:
/// a field access itself, a block's tail, both branches of an `if`, and the
/// arms of a `match` (up to the first that reports).
#[verifier::loop_isolation(false)]
pub fn check_tail_field_own_non_copy(expr: &Expr, ctx: &mut InferCtx) -> (r: bool)
    ensures
        tables_same(final(ctx), old(ctx)),
        final(ctx).type_map@ == old(ctx).type_map@,
        extends(final(ctx).errors@, old(ctx).errors@),
        !r ==> final(ctx).errors@ == old(ctx).errors@,
        r ==> final(ctx).errors@.len() > old(ctx).errors@.len(),
        !(*expr is Field || *expr is Block || *expr is If || *expr is Match) ==> !r,
        *expr matches Expr::Field { object, span, .. } ==> (field_move_fires(old(ctx), *object,
            recorded_or_error(old(ctx), span)) ==> r),
        *expr matches Expr::Field { object, span, .. } ==> (field_move_silent(old(ctx), *object,
            recorded_or_error(old(ctx), span)) ==> !r),
        *expr matches Expr::Block(b) ==> (b.tail is None ==> !r),
        !may_move_field(*expr) ==> !r,
    decreases expr,
{
    match expr {
        Expr::Field { object, field, field_span, span } => {
            let field_ty = match ctx.type_of(*span) {
                Some(t) => t.dup(),
                None => Ty::Error,
            };
            check_field_own_non_copy(object, field, *field_span, &field_ty, ctx)
        },
        Expr::Block(block) => match &block.tail {
            Some(e) => check_tail_field_own_non_copy(e, ctx),
            None => false,
        },
        Expr::If { then_block, else_branch, .. } => {
            let then_fired = match &then_block.tail {
                Some(e) => check_tail_field_own_non_copy(e, ctx),
                None => false,
            };
            let else_fired = match else_branch {
                Some(e) => check_tail_field_own_non_copy(e, ctx),
                None => false,
            };
            then_fired || else_fired
        },
        Expr::Match { arms, .. } => {
            let mut i: usize = 0;
            while i < arms.len()
                invariant
                    i <= arms@.len(),
                    tables_same(ctx, old(ctx)),
                    ctx.type_map@ == old(ctx).type_map@,
                    ctx.errors@ == old(ctx).errors@,
                decreases arms@.len() - i,
            {
                proof {
                    assert(decreases_to!(expr => arms@[i as int].body));
                }
                if check_tail_field_own_non_copy(&arms[i].body, ctx) {
                    return true;
                }
                i = i + 1;
            }
            false
        },
        _ => false,
    }
}

/// Checks the statements and tail of a block in a new scope, records the
/// block's type at its span, and returns it (`Ty::Unit` without a tail).
#[verifier::loop_isolation(false)]
pub fn infer_block(block: &Block, return_ty: &Ty, ctx: &mut InferCtx, env: &mut Env) -> (r: Ty)
    requires
        old(env).frames().len() > 0,
    ensures
        ctx_step(final(ctx), old(ctx)),
        final(env).frames() == old(env).frames(),
        block.tail is None ==> r is Unit,
        type_at(final(ctx).type_map@, block.span) is Some,
        expr::block_value_ty(*block) matches Some(v) ==> (r@ == v && final(ctx).errors@ == old(ctx).errors@),
        body_value(old(ctx), old(env), *block, return_ty@, r, final(ctx).errors@),
    decreases block, 3nat,
{
    env.push_scope();
    let ghost scoped = *env;
    let ghost mut stages: Seq<Seq<TypeError>> = seq![old(ctx).errors@];
    let ghost mut envs: Seq<Env> = seq![scoped];
    proof {
        assert forall|n: Seq<char>| #[trigger] scoped.get(n) == old(env).get(n) by {
            assert(scoped.frames().drop_last() =~= old(env).frames());
            assert(scoped.frames().last() =~= Seq::<(String, Ty)>::empty());
        }
    }
    let mut i: usize = 0;
    while i < block.stmts.len()
        invariant
            i <= block.stmts@.len(),
            ctx_step(ctx, old(ctx)),
            env.frames().len() == old(env).frames().len() + 1,
            env.frames().drop_last() == old(env).frames(),
            block.stmts@.len() == 0 ==> ctx.errors@ == old(ctx).errors@,
            stages.len() == i + 1 && envs.len() == i + 1,
            same_lookup(&envs[0], old(env)),
            stages[0] == old(ctx).errors@ && stages.last() == ctx.errors@ && envs.last() == *env,
            forall|k: int| 0 <= k < i ==> #[trigger] stmt_step(old(ctx), &envs[k], block.stmts@[k], return_ty@,
                stages[k], stages[k + 1], &envs[k + 1]),
        decreases block.stmts@.len() - i,
    {
        proof {
            assert(decreases_to!(block => block.stmts@[i as int]));
        }
        let ghost c0 = *ctx;
        let ghost e0 = *env;
        stmt::infer_stmt(&block.stmts[i], return_ty, ctx, env);
        proof {
            let st = block.stmts@[i as int];
            let bound = env.frames().last().last().1@;
            assert(stmt::stmt_reports(&c0, &e0, st, return_ty@, bound, ctx.errors@));
            lemma_binds_after(&e0, &*env, st, bound);
            assert(stmt_step(old(ctx), &e0, st, return_ty@, stages[i as int], ctx.errors@, &*env));
            let s0 = stages;
            let v0 = envs;
            stages = stages.push(ctx.errors@);
            envs = envs.push(*env);
            assert forall|k: int| 0 <= k < i + 1 implies #[trigger] stmt_step(old(ctx), &envs[k], block.stmts@[k], return_ty@,
                stages[k], stages[k + 1], &envs[k + 1]) by {
                if k < i {
                    assert(envs[k] == v0[k] && envs[k + 1] == v0[k + 1] && stages[k] == s0[k] && stages[k + 1] == s0[k + 1]);
                }
            }
        }
        i = i + 1;
    }
    let ghost before_tail = *ctx;
    let ghost env_tail = *env;
    let tail_ty = match &block.tail {
        Some(e) => expr::infer_expr(e, ctx, env),
        None => Ty::Unit,
    };
    proof {
        assert(stmts_reports(old(ctx), old(env), block.stmts@, return_ty@, stages, envs));
        if block.tail is Some {
            let e = block.tail->0;
            assert(same_lookup(&env_tail, &envs.last()));
            assert(expr_reports(&before_tail, &env_tail, *e, tail_ty, ctx.errors@));
        }
        assert(body_value(old(ctx), old(env), *block, return_ty@, tail_ty, ctx.errors@));
        lemma_record_then_type_of(ctx.type_map@, block.span, tail_ty);
    }
    proof { lemma_record_keeps(ctx.type_map@, block.span, tail_ty); }
    ctx.record(block.span, tail_ty.dup());
    env.pop_scope();
    tail_ty
}

/// After a statement, names find what its binding says (see `binds_after`),
/// given how `infer_stmt` leaves the scopes.
proof fn lemma_binds_after(before: &Env, after: &Env, st: Stmt, bound: TyV)
    requires
        before.frames().len() > 0,
        after.frames().len() == before.frames().len(),
        after.frames().drop_last() == before.frames().drop_last(),
        stmt::stmt_binds(st) matches Some(n) ==> {
            &&& after.frames().last().len() == before.frames().last().len() + 1
            &&& after.frames().last().drop_last() == before.frames().last()
            &&& after.frames().last().last().0@ == n
            &&& after.frames().last().last().1@ == bound
        },
        stmt::stmt_binds(st) is None ==> after.frames() == before.frames(),
    ensures
        binds_after(before, st, bound, after),
{
    let fa = after.frames();
    let fb = before.frames();
    if let Some(n) = stmt::stmt_binds(st) {
        assert forall|m: Seq<char>| #[trigger] after.get(m) == if m == n { Some(bound) } else { before.get(m) } by {
            assert(fa.last().len() > 0);
            if m != n {
                assert(super::env::scope_get(fa.last(), m) == super::env::scope_get(fb.last(), m));
            }
        }
    }
}

/// The type of a top-level function parameter; `self` is only valid in an
/// `impl` block and is reported as deferred here.
fn bind_param(ty: &Type, generic_params: &Vec<String>, span: Span, ctx: &mut InferCtx) -> (r: Ty)
    ensures
        tables_same(final(ctx), old(ctx)),
        final(ctx).type_map@ == old(ctx).type_map@,
        extends(final(ctx).errors@, old(ctx).errors@),
        *ty is SelfTy ==> r is Error,
        stmt::prim_annotation(*ty) matches Some(p) ==> (r@ == p && final(ctx).errors@ == old(ctx).errors@),
{
    if let Type::SelfTy(_) = ty {
        return defer(ctx, "self receiver in top-level fn — only valid inside an impl block", span);
    }
    convert::ast_ty_to_ty(ty, generic_params, None, span, ctx)
}

/// Whether a block ends in an explicit `return` with no tail after it.
fn ends_with_return(b: &Block) -> (r: bool)
    ensures
        r == (b.tail is None && b.stmts@.len() > 0 && b.stmts@.last() is Return),
{
    b.tail.is_none() && b.stmts.len() > 0 && matches!(b.stmts[b.stmts.len() - 1], Stmt::Return { .. })
}

/// Checks a function body against its declared return type.
fn check_body(f: &FunctionDef, declared_return: Ty, what: &str, ctx: &mut InferCtx, env: &mut Env)
    requires
        old(env).frames().len() > 0,
    ensures
        ctx_step(final(ctx), old(ctx)),
        final(env).frames() == old(env).frames(),
        type_at(final(ctx).type_map@, f.body.span) is Some,
        (f.body.stmts@.len() == 0 && f.body.tail is None && declared_return is Unit) ==> final(ctx).errors@ == old(ctx).errors@,
        plain_body(f.body) ==>
            exists|c: InferCtx, t: Ty, mid: Seq<TypeError>| {
                &&& decls_same(&c, old(ctx)) && c.errors@ == old(ctx).errors@
                &&& #[trigger] body_value(&c, old(env), f.body, declared_return@, t, mid)
                &&& return_checked(mid, t, declared_return@, f.body.span, final(ctx).errors@)
            },
{
    ctx.current_return_ty.push(declared_return.dup());
    let ghost c = *ctx;
    let body_ty = infer_block(&f.body, &declared_return, ctx, env);
    let ghost mid = ctx.errors@;
    ctx.current_return_ty.pop();
    proof {
        assert(ctx.current_return_ty@ =~= old(ctx).current_return_ty@);
    }

    // A moved-out field in the implicit return is the root cause; no mismatch on top.
    let tail_owns_non_copy = match &f.body.tail {
        Some(tail) => check_tail_field_own_non_copy(tail, ctx),
        None => false,
    };
    // A body that ends in `return` never reaches its (unit) end.
    let ends_in_return = ends_with_return(&f.body);
    proof {
        if plain_body(f.body) && f.body.stmts@.len() > 0 {
            assert(plain_stmt(f.body.stmts@[f.body.stmts@.len() - 1]));
        }
    }
    if !tail_owns_non_copy && !ends_in_return && !body_ty.is_error() && !declared_return.is_error()
        && !body_ty.same(&declared_return) {
        let mut sugg = String::new();
        push_str(&mut sugg, what);
        push_str(&mut sugg, " `");
        push_str(&mut sugg, f.name.as_str());
        push_str(&mut sugg, "` body must evaluate to the declared return type");
        let ghost d = declared_return;
        let ghost b = body_ty;
        ctx.error(TypeError::ReturnMismatch {
            expected: declared_return,
            found: body_ty,
            span: f.body.span,
            suggestion: Some(sugg),
        });
        proof {
            assert(ctx.errors@.drop_last() =~= mid);
            if plain_body(f.body) {
                assert(d@ != TyV::Error) by { reveal_with_fuel(super::ty::ty_view, 1); }
                assert(body_value(&c, old(env), f.body, d@, b, mid));
                assert(return_checked(mid, b, d@, f.body.span, ctx.errors@));
            }
        }
    } else {
        proof {
            if plain_body(f.body) {
                assert(ctx.errors@ == mid);
                assert(body_value(&c, old(env), f.body, declared_return@, body_ty, mid));
                assert(return_checked(mid, body_ty, declared_return@, f.body.span, ctx.errors@)) by {
                    reveal_with_fuel(super::ty::ty_view, 1);
                }
            }
        }
    }
}

/// Checks a top-level function: its parameters bound in a new scope, then its body.
#[verifier::loop_isolation(false)]
fn infer_fn(f: &FunctionDef, ctx: &mut InferCtx, env: &mut Env)
    requires
        old(env).frames().len() > 0,
    ensures
        ctx_step(final(ctx), old(ctx)),
        final(env).frames() == old(env).frames(),
        type_at(final(ctx).type_map@, f.body.span) is Some,
        empty_fn(*f) ==> final(ctx).errors@ == old(ctx).errors@,
        (plain_fn(*f) && old(env).frames() == seq![Seq::<(String, Ty)>::empty()]) ==>
            fn_reports(old(ctx), *f, old(ctx).errors@, final(ctx).errors@),
{
    env.push_scope();
    let mut i: usize = 0;
    while i < f.params.len()
        invariant
            i <= f.params@.len(),
            ctx_step(ctx, old(ctx)),
            f.params@.len() == 0 ==> ctx.errors@ == old(ctx).errors@,
            env.frames().len() == old(env).frames().len() + 1,
            env.frames().drop_last() == old(env).frames(),
            plain_fn(*f) ==> ctx.errors@ == old(ctx).errors@,
            plain_fn(*f) ==> env.frames().last().len() == i,
            plain_fn(*f) ==> forall|j: int| 0 <= j < i ==> (#[trigger] env.frames().last()[j]).0@ == f.params@[j].name@
                && Some(env.frames().last()[j].1@) == stmt::prim_annotation(f.params@[j].ty),
        decreases f.params@.len() - i,
    {
        let param = &f.params[i];
        let ty = bind_param(&param.ty, &f.generic_params, param.span, ctx);
        let ghost frames0 = env.frames();
        env.define(param.name.clone(), ty);
        proof {
            assert(env.frames().drop_last() =~= old(env).frames());
            if plain_fn(*f) {
                assert(stmt::prim_annotation(f.params@[i as int].ty) is Some);
                assert(env.frames().last() == frames0.last().push((param.name, ty)));
                assert forall|j: int| 0 <= j < i + 1 implies (#[trigger] env.frames().last()[j]).0@ == f.params@[j].name@
                    && Some(env.frames().last()[j].1@) == stmt::prim_annotation(f.params@[j].ty) by {
                    if j < i {
                        assert(env.frames().last()[j] == frames0.last()[j]);
                    }
                }
            }
        }
        i = i + 1;
    }
    proof {
        if plain_fn(*f) && old(env).frames() == seq![Seq::<(String, Ty)>::empty()] {
            lemma_scope_params(env.frames().last(), f.params@);
            let fr = env.frames();
            assert(fr.len() == 2);
            assert(fr.drop_last().drop_last() =~= Seq::<Seq<(String, Ty)>>::empty());
            assert(fr.drop_last().last() =~= Seq::<(String, Ty)>::empty());
            assert forall|n: Seq<char>| #[trigger] env.get(n) == param_get(f.params@, n) by {
                assert(super::env::scope_get(fr.last(), n) == param_get(f.params@, n));
                assert(super::env::scope_get(fr.drop_last().last(), n) is None);
                assert(super::env::scopes_get(fr.drop_last().drop_last(), n) is None);
                assert(super::env::scopes_get(fr.drop_last(), n) is None);
            }
        }
    }
    let declared_return = match &f.return_ty {
        Some(t) => convert::ast_ty_to_ty(t, &f.generic_params, None, f.span, ctx),
        None => Ty::Unit,
    };
    let ghost env_body = *env;
    check_body(f, declared_return, "function", ctx, env);
    proof {
        if plain_fn(*f) && old(env).frames() == seq![Seq::<(String, Ty)>::empty()] {
            assert(declared_return@ == declared_view(*f));
            let (c, t, mid) = choose|c: InferCtx, t: Ty, mid: Seq<TypeError>| {
                &&& decls_same(&c, old(ctx)) && c.errors@ == old(ctx).errors@
                &&& #[trigger] body_value(&c, &env_body, f.body, declared_return@, t, mid)
                &&& return_checked(mid, t, declared_return@, f.body.span, ctx.errors@)
            };
            assert(body_value(&c, &env_body, f.body, declared_return@, t, mid));
        }
    }
    env.pop_scope();
}

/// A scope that binds each parameter, in order, to its primitive type finds
/// for every name what the parameter list does.
proof fn lemma_scope_params(scope: Seq<(String, Ty)>, ps: Seq<crate::ast::Param>)
    requires
        scope.len() == ps.len(),
        forall|j: int| 0 <= j < ps.len() ==> (#[trigger] scope[j]).0@ == ps[j].name@
            && Some(scope[j].1@) == stmt::prim_annotation(ps[j].ty),
    ensures
        forall|n: Seq<char>| #[trigger] super::env::scope_get(scope, n) == param_get(ps, n),
    decreases ps.len(),
{
    if ps.len() > 0 {
        let s2 = scope.drop_last();
        let p2 = ps.drop_last();
        assert forall|j: int| 0 <= j < p2.len() implies (#[trigger] s2[j]).0@ == p2[j].name@
            && Some(s2[j].1@) == stmt::prim_annotation(p2[j].ty) by {
            assert(s2[j] == scope[j]);
            assert(p2[j] == ps[j]);
        }
        lemma_scope_params(s2, p2);
        let k = ps.len() - 1;
        assert(scope.last() == scope[k]);
        assert(ps.last() == ps[k]);
        assert forall|n: Seq<char>| #[trigger] super::env::scope_get(scope, n) == param_get(ps, n) by {
            assert(super::env::scope_get(s2, n) == param_get(p2, n));
        }
    }
}

/// Checks a method of `impl impl_name`: a bare `self` gets the access mode
/// its body needs, `move self` the owned type.
#[verifier::loop_isolation(false)]
fn infer_method(f: &FunctionDef, impl_name: &String, ctx: &mut InferCtx, env: &mut Env)
    requires
        old(env).frames().len() > 0,
    ensures
        ctx_step(final(ctx), old(ctx)),
        type_at(final(ctx).type_map@, f.body.span) is Some,
        final(env).frames() == old(env).frames(),
{
    env.push_scope();
    let mut i: usize = 0;
    while i < f.params.len()
        invariant
            i <= f.params@.len(),
            ctx_step(ctx, old(ctx)),
            env.frames().len() == old(env).frames().len() + 1,
            env.frames().drop_last() == old(env).frames(),
        decreases f.params@.len() - i,
    {
        let param = &f.params[i];
        let ty = if let Type::SelfTy(_) = &param.ty {
            if param.consuming {
                Ty::Named(impl_name.clone())
            } else {
                self_access::infer_self_access_mode(impl_name, &f.body, &f.name, ctx)
            }
        } else {
            convert::ast_ty_to_ty(&param.ty, &f.generic_params, Some(impl_name), param.span, ctx)
        };
        env.define(param.name.clone(), ty);
        proof {
            assert(env.frames().drop_last() =~= old(env).frames());
        }
        i = i + 1;
    }
    let declared_return = match &f.return_ty {
        Some(t) => convert::ast_ty_to_ty(t, &f.generic_params, Some(impl_name), f.span, ctx),
        None => Ty::Unit,
    };
    check_body(f, declared_return, "method", ctx, env);
    env.pop_scope();
}

#[verifier::loop_isolation(false)]
fn infer_impl_methods(block: &ImplBlock, ctx: &mut InferCtx, env: &mut Env)
    requires
        old(env).frames().len() > 0,
    ensures
        ctx_step(final(ctx), old(ctx)),
        final(env).frames() == old(env).frames(),
        bodies_typed(Item::Impl(*block), final(ctx).type_map@),
{
    let mut i: usize = 0;
    while i < block.methods.len()
        invariant
            i <= block.methods@.len(),
            ctx_step(ctx, old(ctx)),
            env.frames() == old(env).frames(),
            forall|k: int| 0 <= k < i ==> type_at(ctx.type_map@, (#[trigger] block.methods@[k]).body.span) is Some,
        decreases block.methods@.len() - i,
    {
        infer_method(&block.methods[i], &block.ty_name, ctx, env);
        i = i + 1;
    }
}

// ─── Collection of declarations ─────────────────────────────────────────────

/// Registers a function's signature; a second declaration of the name is
/// reported and the first kept.
#[verifier::loop_isolation(false)]
fn collect_fn_sig(f: &FunctionDef, ctx: &mut InferCtx)
    ensures
        final(ctx).struct_defs@ == old(ctx).struct_defs@,
        final(ctx).enum_defs@ == old(ctx).enum_defs@,
        final(ctx).impl_sigs@ == old(ctx).impl_sigs@,
        extends(final(ctx).errors@, old(ctx).errors@),
        has_key(old(ctx).fn_sigs@, f.name@) ==> final(ctx).fn_sigs@ == old(ctx).fn_sigs@
            && (final(ctx).errors@.last() matches TypeError::DuplicateFn { name, first_span, duplicate_span }
                && name@ == f.name@ && duplicate_span == f.name_span
                && first_span == old(ctx).fn_sigs@[first_key_index(old(ctx).fn_sigs@, f.name@)].1.1),
        !has_key(old(ctx).fn_sigs@, f.name@) ==> final(ctx).fn_sigs@.len() == old(ctx).fn_sigs@.len() + 1
            && final(ctx).fn_sigs@.drop_last() == old(ctx).fn_sigs@
            && final(ctx).fn_sigs@.last().0@ == f.name@
            && final(ctx).fn_sigs@.last().1.1 == f.name_span
            && final(ctx).fn_sigs@.last().1.0.params@.len() == f.params@.len()
            && final(ctx).fn_sigs@.last().1.0.is_generic == (f.generic_params@.len() > 0)
            && !final(ctx).fn_sigs@.last().1.0.self_consuming,
        keys_kept(final(ctx).fn_sigs@, old(ctx).fn_sigs@),
        has_key(final(ctx).fn_sigs@, f.name@),
        (f.params@.len() == 0 && f.return_ty is None && !has_key(old(ctx).fn_sigs@, f.name@))
            ==> final(ctx).errors@ == old(ctx).errors@,
        (plain_signature(*f) && !has_key(old(ctx).fn_sigs@, f.name@)) ==> final(ctx).errors@ == old(ctx).errors@
            && sig_of_plain(final(ctx).fn_sigs@.last(), *f),
        final(ctx).variant_to_enum@ == old(ctx).variant_to_enum@,
{
    let is_generic = f.generic_params.len() > 0;
    let mut params: Vec<Ty> = Vec::new();
    let mut i: usize = 0;
    while i < f.params.len()
        invariant
            i <= f.params@.len(),
            params@.len() == i,
            tables_same(ctx, old(ctx)),
            extends(ctx.errors@, old(ctx).errors@),
            f.params@.len() == 0 ==> ctx.errors@ == old(ctx).errors@,
            plain_signature(*f) ==> ctx.errors@ == old(ctx).errors@,
            plain_signature(*f) ==> forall|j: int| 0 <= j < i ==>
                Some((#[trigger] params@[j])@) == stmt::prim_annotation(f.params@[j].ty),
        decreases f.params@.len() - i,
    {
        proof {
            if plain_signature(*f) {
                assert(stmt::prim_annotation(f.params@[i as int].ty) is Some);
            }
        }
        let t = convert::ast_ty_to_ty(&f.params[i].ty, &f.generic_params, None, f.params[i].span, ctx);
        params.push(t);
        i = i + 1;
    }
    let return_ty = match &f.return_ty {
        Some(t) => convert::ast_ty_to_ty(t, &f.generic_params, None, f.span, ctx),
        None => Ty::Unit,
    };
    let sig = FnSig { params, return_ty, is_generic, self_consuming: false };
    match find_key(&ctx.fn_sigs, &f.name) {
        Some(k) => {
            let first_span = ctx.fn_sigs[k].1.1;
            ctx.error(TypeError::DuplicateFn { name: f.name.clone(), first_span, duplicate_span: f.name_span });
        },
        None => {
            let entry = (f.name.clone(), (sig, f.name_span));
            let ghost g = entry;
            ctx.fn_sigs.push(entry);
            proof {
                assert(ctx.fn_sigs@.drop_last() =~= old(ctx).fn_sigs@);
                lemma_push_keys(old(ctx).fn_sigs@, g);
            }
        },
    }
}

/// The method namespaces as sequences of entries.
pub type MethodTable = Seq<(String, Vec<(String, (FnSig, Span))>)>;

/// Whether type `ty` has a method named `m` in the namespaces.
pub open spec fn has_method(sigs: MethodTable, ty: Seq<char>, m: Seq<char>) -> bool {
    exists|i: int| 0 <= i < sigs.len() && #[trigger] sigs[i].0@ == ty && has_key(sigs[i].1@, m)
}

/// Replacing a namespace by one that keeps its methods loses no method.
pub proof fn lemma_has_method_update(
    sigs: MethodTable,
    ns: int,
    entry: (String, Vec<(String, (FnSig, Span))>),
)
    requires
        0 <= ns < sigs.len(),
        entry.0@ == sigs[ns].0@,
        forall|m: Seq<char>| has_key(sigs[ns].1@, m) ==> #[trigger] has_key(entry.1@, m),
    ensures
        forall|ty: Seq<char>, m: Seq<char>| has_method(sigs, ty, m) ==> #[trigger] has_method(sigs.update(ns, entry), ty, m),
{
    let s2 = sigs.update(ns, entry);
    assert forall|ty: Seq<char>, m: Seq<char>| has_method(sigs, ty, m) implies #[trigger] has_method(s2, ty, m) by {
        let i = choose|i: int| 0 <= i < sigs.len() && #[trigger] sigs[i].0@ == ty && has_key(sigs[i].1@, m);
        if i == ns {
            assert(has_key(entry.1@, m));
            assert(s2[i].0@ == ty && has_key(s2[i].1@, m));
        } else {
            assert(s2[i] == sigs[i]);
        }
    }
}

/// Adding a namespace loses no method.
pub proof fn lemma_has_method_push(sigs: MethodTable, entry: (String, Vec<(String, (FnSig, Span))>))
    ensures
        forall|ty: Seq<char>, m: Seq<char>| has_method(sigs, ty, m) ==> #[trigger] has_method(sigs.push(entry), ty, m),
{
    let s2 = sigs.push(entry);
    assert forall|ty: Seq<char>, m: Seq<char>| has_method(sigs, ty, m) implies #[trigger] has_method(s2, ty, m) by {
        let i = choose|i: int| 0 <= i < sigs.len() && #[trigger] sigs[i].0@ == ty && has_key(sigs[i].1@, m);
        assert(s2[i] == sigs[i]);
    }
}

/// `m` is a method in the namespace of type `ty` (the first entry for `ty`).
pub open spec fn in_first_ns(sigs: MethodTable, ty: Seq<char>, m: Seq<char>) -> bool {
    has_key(sigs, ty) && has_key(sigs[first_key_index(sigs, ty)].1@, m)
}

/// Among the errors from index `from` on, one reports method `m` of type
/// `ty` as declared twice.
pub open spec fn dup_method_reported(errs: Seq<TypeError>, from: int, ty: Seq<char>, m: Seq<char>) -> bool {
    exists|k: int| from <= k < errs.len() && #[trigger] errs[k] is DuplicateMethod
        && errs[k]->DuplicateMethod_ty_name@ == ty && errs[k]->DuplicateMethod_method_name@ == m
}

/// Method `k` of the block repeats a name: one already in its type's
/// namespace in `sigs`, or one declared earlier in the block.
pub open spec fn method_is_dup(block: ImplBlock, sigs: MethodTable, k: int) -> bool {
    ||| in_first_ns(sigs, block.ty_name@, block.methods@[k].name@)
    ||| exists|j: int| 0 <= j < k && block.methods@[j].name@ == block.methods@[k].name@
}

/// A duplicate report stays among errors that only accumulate.
pub proof fn lemma_dup_method_kept(later: Seq<TypeError>, earlier: Seq<TypeError>)
    requires
        extends(later, earlier),
    ensures
        forall|from: int, ty: Seq<char>, m: Seq<char>| 0 <= from && dup_method_reported(earlier, from, ty, m)
            ==> #[trigger] dup_method_reported(later, from, ty, m),
{
    assert forall|k: int| 0 <= k < earlier.len() implies later[k] == #[trigger] earlier[k] by {}
}

/// Registers the methods of an `impl` block in its type's namespace, with
/// the receiver stripped from the parameters; names are unique per type
/// across all its `impl` blocks.
#[verifier::loop_isolation(false)]
fn collect_impl_sigs(block: &ImplBlock, ctx: &mut InferCtx)
    ensures
        final(ctx).struct_defs@ == old(ctx).struct_defs@,
        final(ctx).enum_defs@ == old(ctx).enum_defs@,
        final(ctx).fn_sigs@ == old(ctx).fn_sigs@,
        extends(final(ctx).errors@, old(ctx).errors@),
        forall|ty: Seq<char>, name: Seq<char>| has_method(old(ctx).impl_sigs@, ty, name)
            ==> #[trigger] has_method(final(ctx).impl_sigs@, ty, name),
        forall|k: int| 0 <= k < block.methods@.len()
            ==> has_method(final(ctx).impl_sigs@, block.ty_name@, (#[trigger] block.methods@[k]).name@),
        forall|k: int| 0 <= k < block.methods@.len() && #[trigger] method_is_dup(*block, old(ctx).impl_sigs@, k)
            ==> dup_method_reported(final(ctx).errors@, old(ctx).errors@.len() as int, block.ty_name@, block.methods@[k].name@),
{
    let mut m: usize = 0;
    while m < block.methods.len()
        invariant
            m <= block.methods@.len(),
            ctx.struct_defs@ == old(ctx).struct_defs@,
            ctx.enum_defs@ == old(ctx).enum_defs@,
            ctx.fn_sigs@ == old(ctx).fn_sigs@,
            extends(ctx.errors@, old(ctx).errors@),
            forall|ty: Seq<char>, name: Seq<char>| has_method(old(ctx).impl_sigs@, ty, name)
                ==> #[trigger] has_method(ctx.impl_sigs@, ty, name),
            forall|k: int| 0 <= k < m
                ==> has_method(ctx.impl_sigs@, block.ty_name@, (#[trigger] block.methods@[k]).name@),
            forall|nm: Seq<char>| #[trigger] in_first_ns(old(ctx).impl_sigs@, block.ty_name@, nm)
                ==> in_first_ns(ctx.impl_sigs@, block.ty_name@, nm),
            forall|k: int| 0 <= k < m ==> in_first_ns(ctx.impl_sigs@, block.ty_name@, (#[trigger] block.methods@[k]).name@),
            forall|k: int| 0 <= k < m && #[trigger] method_is_dup(*block, old(ctx).impl_sigs@, k)
                ==> dup_method_reported(ctx.errors@, old(ctx).errors@.len() as int, block.ty_name@, block.methods@[k].name@),
        decreases block.methods@.len() - m,
    {
        let ghost before = ctx.impl_sigs@;
        let ghost errs0 = ctx.errors@;
        let f = &block.methods[m];
        let is_generic = f.generic_params.len() > 0;
        let (self_consuming, first) = if f.params.len() > 0 && matches!(f.params[0].ty, Type::SelfTy(_)) {
            (f.params[0].consuming, 1usize)
        } else {
            (false, 0usize)
        };
        let mut params: Vec<Ty> = Vec::new();
        let mut i: usize = first;
        while i < f.params.len()
            invariant
                first <= i <= f.params@.len(),
                ctx.struct_defs@ == old(ctx).struct_defs@,
                ctx.enum_defs@ == old(ctx).enum_defs@,
                ctx.fn_sigs@ == old(ctx).fn_sigs@,
                ctx.impl_sigs@ == before,
                extends(ctx.errors@, old(ctx).errors@),
                extends(ctx.errors@, errs0),
            decreases f.params@.len() - i,
        {
            let t = convert::ast_ty_to_ty(&f.params[i].ty, &f.generic_params, Some(&block.ty_name), f.params[i].span, ctx);
            params.push(t);
            i = i + 1;
        }
        let return_ty = match &f.return_ty {
            Some(t) => convert::ast_ty_to_ty(t, &f.generic_params, Some(&block.ty_name), f.span, ctx),
            None => Ty::Unit,
        };
        let sig = FnSig { params, return_ty, is_generic, self_consuming };
        let ghost errs1 = ctx.errors@;
        proof {
            if method_is_dup(*block, old(ctx).impl_sigs@, m as int) {
                if !in_first_ns(old(ctx).impl_sigs@, block.ty_name@, f.name@) {
                    let j = choose|j: int| 0 <= j < m && block.methods@[j].name@ == block.methods@[m as int].name@;
                    assert(in_first_ns(before, block.ty_name@, block.methods@[j].name@));
                }
                assert(in_first_ns(before, block.ty_name@, f.name@));
            }
        }
        match find_key(&ctx.impl_sigs, &block.ty_name) {
            Some(ns) => {
                match find_key(&ctx.impl_sigs[ns].1, &f.name) {
                    Some(k) => {
                        let first_span = ctx.impl_sigs[ns].1[k].1.1;
                        let ghost pre = ctx.errors@;
                        ctx.error(TypeError::DuplicateMethod {
                            ty_name: block.ty_name.clone(),
                            method_name: f.name.clone(),
                            first_span,
                            duplicate_span: f.name_span,
                        });
                        proof {
                            assert(ctx.errors@[pre.len() as int] is DuplicateMethod);
                            assert(dup_method_reported(ctx.errors@, old(ctx).errors@.len() as int, block.ty_name@, f.name@));
                            assert(ctx.impl_sigs@[ns as int].0@ == block.ty_name@);
                            assert(has_key(ctx.impl_sigs@[ns as int].1@, f.name@));
                        }
                    },
                    None => {
                        let (tname, mut methods) = ctx.impl_sigs.remove(ns);
                        let ghost old_methods = methods@;
                        methods.push((f.name.clone(), (sig, f.name_span)));
                        let ghost entry = (tname, methods);
                        ctx.impl_sigs.insert(ns, (tname, methods));
                        proof {
                            assert(ctx.impl_sigs@ =~= before.update(ns as int, entry));
                            assert forall|nm: Seq<char>| has_key(before[ns as int].1@, nm) implies #[trigger] has_key(entry.1@, nm) by {
                                let j = choose|j: int| 0 <= j < old_methods.len() && #[trigger] old_methods[j].0@ == nm;
                                assert(entry.1@[j] == old_methods[j]);
                            }
                            lemma_has_method_update(before, ns as int, entry);
                            lemma_first_key_index(ctx.impl_sigs@, block.ty_name@, ns as int);
                            assert forall|nm: Seq<char>| in_first_ns(before, block.ty_name@, nm)
                                implies #[trigger] in_first_ns(ctx.impl_sigs@, block.ty_name@, nm) by {
                                assert(has_key(entry.1@, nm));
                            }
                            assert(entry.1@[entry.1@.len() - 1].0@ == f.name@);
                            assert(has_key(entry.1@, f.name@));
                            assert(ctx.impl_sigs@[ns as int].0@ == block.ty_name@);
                        }
                    },
                }
            },
            None => {
                let mut methods: Vec<(String, (FnSig, Span))> = Vec::new();
                methods.push((f.name.clone(), (sig, f.name_span)));
                let entry = (block.ty_name.clone(), methods);
                let ghost g = entry;
                ctx.impl_sigs.push(entry);
                proof {
                    lemma_has_method_push(before, g);
                    lemma_first_key_index(ctx.impl_sigs@, block.ty_name@, before.len() as int);
                    let last = ctx.impl_sigs@.len() - 1;
                    assert(ctx.impl_sigs@[last].1@[0].0@ == f.name@);
                    assert(has_key(ctx.impl_sigs@[last].1@, f.name@));
                    assert(ctx.impl_sigs@[last].0@ == block.ty_name@);
                }
            },
        }
        proof {
            assert(has_method(ctx.impl_sigs@, block.ty_name@, block.methods@[m as int].name@));
            lemma_dup_method_kept(errs1, errs0);
            lemma_dup_method_kept(ctx.errors@, errs1);
        }
        m = m + 1;
    }
}

/// Registers a struct name (its fields come later, once every type name is
/// known); a second declaration of the name is reported.
fn collect_struct_name(def: &StructDef, ctx: &mut InferCtx)
    ensures
        final(ctx).enum_defs@ == old(ctx).enum_defs@,
        extends(final(ctx).errors@, old(ctx).errors@),
        has_key(old(ctx).struct_defs@, def.name@) ==> final(ctx).struct_defs@ == old(ctx).struct_defs@
            && (final(ctx).errors@.last() matches TypeError::DuplicateStruct { name, first_span, duplicate_span }
                && name@ == def.name@ && duplicate_span == def.name_span
                && first_span == old(ctx).struct_defs@[first_key_index(old(ctx).struct_defs@, def.name@)].1.name_span),
        !has_key(old(ctx).struct_defs@, def.name@) ==> final(ctx).struct_defs@.len() == old(ctx).struct_defs@.len() + 1
            && final(ctx).struct_defs@.drop_last() == old(ctx).struct_defs@
            && final(ctx).struct_defs@.last().0@ == def.name@
            && final(ctx).struct_defs@.last().1.name_span == def.name_span
            && final(ctx).struct_defs@.last().1.fields@.len() == 0
            && final(ctx).struct_defs@.last().1.copy_override is None
            && final(ctx).struct_defs@.last().1.is_generic == (def.generic_params@.len() > 0),
        final(ctx).errors@.len() <= old(ctx).errors@.len() + 1,
        keys_kept(final(ctx).struct_defs@, old(ctx).struct_defs@),
        has_key(final(ctx).struct_defs@, def.name@),
        final(ctx).fn_sigs@ == old(ctx).fn_sigs@,
        final(ctx).impl_sigs@ == old(ctx).impl_sigs@,
{
    match find_key(&ctx.struct_defs, &def.name) {
        Some(i) => {
            let first_span = ctx.struct_defs[i].1.name_span;
            ctx.error(TypeError::DuplicateStruct { name: def.name.clone(), first_span, duplicate_span: def.name_span });
        },
        None => {
            ctx.struct_defs.push((def.name.clone(), StructInfo {
                name_span: def.name_span,
                fields: Vec::new(),
                copy_override: None,
                is_generic: def.generic_params.len() > 0,
            }));
            proof {
                assert(ctx.struct_defs@.drop_last() =~= old(ctx).struct_defs@);
                assert(ctx.struct_defs@ =~= old(ctx).struct_defs@.push(ctx.struct_defs@.last()));
                lemma_push_keys(old(ctx).struct_defs@, ctx.struct_defs@.last());
            }
        },
    }
}

/// Whether `def` is the declaration that registered its name (the first one):
/// the entry for the name carries this declaration's name span.
pub open spec fn is_first_decl<V>(defs: Seq<(String, V)>, name: Seq<char>, name_span: Span, entry_span: spec_fn(V) -> Span) -> bool {
    has_key(defs, name) && entry_span(defs[first_key_index(defs, name)].1) == name_span
}

/// Resolves the field types of a struct into its entry. Only the first
/// declaration of a name fills the entry: a duplicate (already reported)
/// leaves the first declaration's fields as they are.
#[verifier::loop_isolation(false)]
fn collect_struct_fields(def: &StructDef, ctx: &mut InferCtx)
    ensures
        final(ctx).struct_defs@.len() == old(ctx).struct_defs@.len(),
        final(ctx).enum_defs@ == old(ctx).enum_defs@,
        extends(final(ctx).errors@, old(ctx).errors@),
        !is_first_decl(old(ctx).struct_defs@, def.name@, def.name_span, |i: StructInfo| i.name_span)
            ==> final(ctx).struct_defs@ == old(ctx).struct_defs@,
        is_first_decl(old(ctx).struct_defs@, def.name@, def.name_span, |i: StructInfo| i.name_span) ==> ({
            let i = first_key_index(old(ctx).struct_defs@, def.name@);
            let info = final(ctx).struct_defs@[i].1;
            &&& forall|j: int| 0 <= j < old(ctx).struct_defs@.len() && j != i ==>
                    #[trigger] final(ctx).struct_defs@[j] == old(ctx).struct_defs@[j]
            &&& final(ctx).struct_defs@[i].0@ == def.name@
            &&& info.name_span == old(ctx).struct_defs@[i].1.name_span
            &&& info.is_generic == old(ctx).struct_defs@[i].1.is_generic
            &&& info.copy_override == def.copy_move
            &&& info.fields@.len() == def.fields@.len()
            &&& forall|k: int| 0 <= k < def.fields@.len() ==> #[trigger] info.fields@[k].0@ == def.fields@[k].name@
            &&& forall|k: int| 0 <= k < def.fields@.len() ==> (named_annotation(old(ctx), def.fields@[k].ty, def.generic_params@)
                matches Some(v) ==> (#[trigger] info.fields@[k]).1@ == v)
        }),
        names_same(final(ctx).struct_defs@, old(ctx).struct_defs@),
        final(ctx).fn_sigs@ == old(ctx).fn_sigs@,
        final(ctx).impl_sigs@ == old(ctx).impl_sigs@,
{
    let idx = match find_key(&ctx.struct_defs, &def.name) {
        Some(i) => i,
        None => {
            return;
        },
    };
    if ctx.struct_defs[idx].1.name_span != def.name_span {
        // A later declaration of a name already declared: the first one wins.
        return;
    }
    let mut fields: Vec<(String, Ty)> = Vec::new();
    let mut k: usize = 0;
    while k < def.fields.len()
        invariant
            k <= def.fields@.len(),
            fields@.len() == k,
            forall|m: int| 0 <= m < k ==> #[trigger] fields@[m].0@ == def.fields@[m].name@,
            forall|m: int| 0 <= m < k ==> (named_annotation(old(ctx), def.fields@[m].ty, def.generic_params@)
                matches Some(v) ==> (#[trigger] fields@[m]).1@ == v),
            ctx.struct_defs@ == old(ctx).struct_defs@,
            ctx.enum_defs@ == old(ctx).enum_defs@,
            ctx.fn_sigs@ == old(ctx).fn_sigs@,
            ctx.impl_sigs@ == old(ctx).impl_sigs@,
            extends(ctx.errors@, old(ctx).errors@),
        decreases def.fields@.len() - k,
    {
        let f = &def.fields[k];
        let ty = convert::ast_ty_to_ty(&f.ty, &def.generic_params, None, f.span, ctx);
        let ghost fields0 = fields@;
        fields.push((f.name.clone(), ty));
        proof {
            assert forall|m: int| 0 <= m < k + 1 implies (named_annotation(old(ctx), def.fields@[m].ty, def.generic_params@)
                matches Some(v) ==> (#[trigger] fields@[m]).1@ == v) by {
                if m < k {
                    assert(fields@[m] == fields0[m]);
                }
            }
        }
        k = k + 1;
    }
    let name_span = ctx.struct_defs[idx].1.name_span;
    let is_generic = ctx.struct_defs[idx].1.is_generic;
    let info = StructInfo { name_span, fields, copy_override: def.copy_move, is_generic };
    ctx.struct_defs.set(idx, (def.name.clone(), info));
}

/// The type a named type annotation stands for, given the declared names
/// and the type parameters in scope: a primitive, a type parameter, a
/// declared struct or enum, or `<error>` (generic instantiations and unknown
/// names). `None` for references and `Self`.
pub open spec fn named_annotation(ctx: &InferCtx, ty: Type, generics: Seq<String>) -> Option<TyV> {
    match ty {
        Type::Named { name, args, .. } => if args@.len() > 0 {
            Some(TyV::Error)
        } else if convert::prim_ty(name@) is Some {
            convert::prim_ty(name@)
        } else if exists|i: int| 0 <= i < generics.len() && #[trigger] generics[i]@ == name@ {
            Some(TyV::Param(name@))
        } else if has_key(ctx.struct_defs@, name@) || has_key(ctx.enum_defs@, name@) {
            Some(TyV::Named(name@))
        } else {
            Some(TyV::Error)
        },
        _ => None,
    }
}

/// Registers an enum name; a second declaration of the name is reported.
fn collect_enum_name(def: &EnumDef, ctx: &mut InferCtx)
    ensures
        final(ctx).struct_defs@ == old(ctx).struct_defs@,
        extends(final(ctx).errors@, old(ctx).errors@),
        has_key(old(ctx).enum_defs@, def.name@) ==> final(ctx).enum_defs@ == old(ctx).enum_defs@
            && (final(ctx).errors@.last() matches TypeError::DuplicateEnum { name, first_span, duplicate_span }
                && name@ == def.name@ && duplicate_span == def.name_span
                && first_span == old(ctx).enum_defs@[first_key_index(old(ctx).enum_defs@, def.name@)].1.name_span),
        !has_key(old(ctx).enum_defs@, def.name@) ==> final(ctx).enum_defs@.len() == old(ctx).enum_defs@.len() + 1
            && final(ctx).enum_defs@.drop_last() == old(ctx).enum_defs@
            && final(ctx).enum_defs@.last().0@ == def.name@
            && final(ctx).enum_defs@.last().1.name_span == def.name_span
            && final(ctx).enum_defs@.last().1.variants@.len() == 0
            && final(ctx).enum_defs@.last().1.copy_override is None
            && final(ctx).enum_defs@.last().1.is_generic == (def.generic_params@.len() > 0),
        final(ctx).errors@.len() <= old(ctx).errors@.len() + 1,
        keys_kept(final(ctx).enum_defs@, old(ctx).enum_defs@),
        has_key(final(ctx).enum_defs@, def.name@),
        final(ctx).fn_sigs@ == old(ctx).fn_sigs@,
        final(ctx).impl_sigs@ == old(ctx).impl_sigs@,
{
    match find_key(&ctx.enum_defs, &def.name) {
        Some(i) => {
            let first_span = ctx.enum_defs[i].1.name_span;
            ctx.error(TypeError::DuplicateEnum { name: def.name.clone(), first_span, duplicate_span: def.name_span });
        },
        None => {
            ctx.enum_defs.push((def.name.clone(), EnumInfo {
                name_span: def.name_span,
                variants: Vec::new(),
                copy_override: None,
                is_generic: def.generic_params.len() > 0,
            }));
            proof {
                assert(ctx.enum_defs@.drop_last() =~= old(ctx).enum_defs@);
                assert(ctx.enum_defs@ =~= old(ctx).enum_defs@.push(ctx.enum_defs@.last()));
                lemma_push_keys(old(ctx).enum_defs@, ctx.enum_defs@.last());
            }
        },
    }
}

/// No two variants share a name.
pub open spec fn names_unique(vs: Seq<(String, Vec<Ty>)>) -> bool {
    forall|a: int, b: int| 0 <= a < b < vs.len() ==> #[trigger] vs[a].0@ != #[trigger] vs[b].0@
}

/// Every variant is declared, with the payload length of a declaration of its name.
pub open spec fn variants_declared(vs: Seq<(String, Vec<Ty>)>, decl: Seq<EnumVariant>, upto: int) -> bool {
    forall|m: int| 0 <= m < vs.len() ==> exists|j: int| 0 <= j < upto
        && #[trigger] decl[j].name@ == (#[trigger] vs[m]).0@
        && vs[m].1@.len() == decl[j].fields@.len()
}

/// Every declaration (before `upto`) has a variant of its name.
pub open spec fn variants_cover(vs: Seq<(String, Vec<Ty>)>, decl: Seq<EnumVariant>, upto: int) -> bool {
    forall|j: int| 0 <= j < upto ==> exists|m: int| 0 <= m < vs.len()
        && (#[trigger] vs[m]).0@ == (#[trigger] decl[j]).name@
}

/// Declaration `j` repeats the name of an earlier declaration.
pub open spec fn repeats_earlier(decl: Seq<EnumVariant>, j: int) -> bool {
    exists|i: int| 0 <= i < j && decl[i].name@ == decl[j].name@
}

/// Declaration `j` is listed among the duplicates (by name and its own span).
pub open spec fn listed_dup(dups: Seq<(String, Span, Span)>, decl: Seq<EnumVariant>, j: int) -> bool {
    exists|d: int| 0 <= d < dups.len() && (#[trigger] dups[d]).0@ == decl[j].name@ && dups[d].2 == decl[j].name_span
}

/// Among the errors from `from` on, one reports variant `v` of enum `e`
/// declared again at `span`.
pub open spec fn dup_variant_reported(errs: Seq<TypeError>, from: int, e: Seq<char>, v: Seq<char>, span: Span) -> bool {
    exists|k: int| from <= k < errs.len() && #[trigger] errs[k] is DuplicateVariant
        && errs[k]->DuplicateVariant_enum_name@ == e && errs[k]->DuplicateVariant_variant_name@ == v
        && errs[k]->DuplicateVariant_duplicate_span == span
}

/// The variants of an enum declaration, each name once with the payload
/// types of its first declaration, and the later declarations of a name
/// (name, first span, duplicate span).
#[verifier::rlimit(30)]
fn dedup_variants(def: &EnumDef, ctx: &mut InferCtx) -> (r: (Vec<(String, Vec<Ty>)>, Vec<(String, Span, Span)>))
    ensures
        tables_same(final(ctx), old(ctx)),
        extends(final(ctx).errors@, old(ctx).errors@),
        names_unique(r.0@),
        variants_declared(r.0@, def.variants@, def.variants@.len() as int),
        variants_cover(r.0@, def.variants@, def.variants@.len() as int),
        forall|j: int| 0 <= j < def.variants@.len() && #[trigger] repeats_earlier(def.variants@, j) ==> listed_dup(r.1@, def.variants@, j),
{
    let mut variants: Vec<(String, Vec<Ty>)> = Vec::new();
    let mut first_spans: Vec<(String, Span)> = Vec::new();
    let mut dups: Vec<(String, Span, Span)> = Vec::new();
    let mut k: usize = 0;
    while k < def.variants.len()
        invariant
            k <= def.variants@.len(),
            tables_same(ctx, old(ctx)),
            extends(ctx.errors@, old(ctx).errors@),
            variants@.len() == first_spans@.len(),
            forall|m: int| 0 <= m < variants@.len() ==> #[trigger] variants@[m].0@ == first_spans@[m].0@,
            names_unique(variants@),
            variants_declared(variants@, def.variants@, k as int),
            variants_cover(variants@, def.variants@, k as int),
            forall|j: int| 0 <= j < k && #[trigger] repeats_earlier(def.variants@, j) ==> listed_dup(dups@, def.variants@, j),
        decreases def.variants@.len() - k,
    {
        let v = &def.variants[k];
        let ghost dups0 = dups@;
        proof {
            if repeats_earlier(def.variants@, k as int) {
                let i = choose|i: int| 0 <= i < k && def.variants@[i].name@ == def.variants@[k as int].name@;
                let m = choose|m: int| 0 <= m < variants@.len() && (#[trigger] variants@[m]).0@ == (#[trigger] def.variants@[i]).name@;
                assert(first_spans@[m].0@ == v.name@);
            }
        }
        match find_key(&first_spans, &v.name) {
            Some(j) => {
                let first = first_spans[j].1;
                dups.push((v.name.clone(), first, v.name_span));
                proof {
                    assert(variants@[j as int].0@ == def.variants@[k as int].name@);
                    assert(dups@[dups@.len() - 1].0@ == def.variants@[k as int].name@);
                    assert(listed_dup(dups@, def.variants@, k as int));
                    assert forall|jj: int| 0 <= jj < k && #[trigger] repeats_earlier(def.variants@, jj)
                        implies listed_dup(dups@, def.variants@, jj) by {
                        let d = choose|d: int| 0 <= d < dups0.len() && (#[trigger] dups0[d]).0@ == def.variants@[jj].name@
                            && dups0[d].2 == def.variants@[jj].name_span;
                        assert(dups@[d] == dups0[d]);
                    }
                }
            },
            None => {
                first_spans.push((v.name.clone(), v.name_span));
                let mut tys: Vec<Ty> = Vec::new();
                let mut t: usize = 0;
                while t < v.fields.len()
                    invariant
                        t <= v.fields@.len(),
                        tys@.len() == t,
                        tables_same(ctx, old(ctx)),
                        extends(ctx.errors@, old(ctx).errors@),
                    decreases v.fields@.len() - t,
                {
                    let ty = convert::ast_ty_to_ty(&v.fields[t], &def.generic_params, None, v.span, ctx);
                    tys.push(ty);
                    t = t + 1;
                }
                let ghost before = variants@;
                variants.push((v.name.clone(), tys));
                proof {
                    assert(variants@.last().0@ == def.variants@[k as int].name@);
                    assert forall|m: int| 0 <= m < variants@.len() implies exists|j: int| 0 <= j < k + 1
                        && #[trigger] def.variants@[j].name@ == (#[trigger] variants@[m]).0@
                        && variants@[m].1@.len() == def.variants@[j].fields@.len() by {
                        if m < before.len() {
                            assert(variants@[m] == before[m]);
                        } else {
                            assert(def.variants@[k as int].name@ == variants@[m].0@);
                        }
                    }
                    assert forall|j: int| 0 <= j < k + 1 implies exists|m: int| 0 <= m < variants@.len()
                        && (#[trigger] variants@[m]).0@ == (#[trigger] def.variants@[j]).name@ by {
                        if j == k {
                            assert(variants@[variants@.len() - 1].0@ == def.variants@[j].name@);
                        } else {
                            let m0 = choose|m: int| 0 <= m < before.len() && (#[trigger] before[m]).0@ == def.variants@[j].name@;
                            assert(variants@[m0] == before[m0]);
                        }
                    }
                }
            },
        }
        k = k + 1;
    }
    (variants, dups)
}

/// Resolves the payload types of an enum's variants into its entry (a
/// variant named twice is reported and its second declaration dropped), and
/// indexes each variant name under this enum.
fn collect_enum_variants(def: &EnumDef, ctx: &mut InferCtx)
    ensures
        final(ctx).struct_defs@ == old(ctx).struct_defs@,
        final(ctx).enum_defs@.len() == old(ctx).enum_defs@.len(),
        extends(final(ctx).errors@, old(ctx).errors@),
        !is_first_decl(old(ctx).enum_defs@, def.name@, def.name_span, |i: EnumInfo| i.name_span)
            ==> final(ctx).enum_defs@ == old(ctx).enum_defs@ && final(ctx).errors@ == old(ctx).errors@,
        is_first_decl(old(ctx).enum_defs@, def.name@, def.name_span, |i: EnumInfo| i.name_span) ==> ({
            let i = first_key_index(old(ctx).enum_defs@, def.name@);
            let info = final(ctx).enum_defs@[i].1;
            &&& forall|j: int| 0 <= j < old(ctx).enum_defs@.len() && j != i ==>
                    #[trigger] final(ctx).enum_defs@[j] == old(ctx).enum_defs@[j]
            &&& final(ctx).enum_defs@[i].0@ == def.name@
            &&& info.name_span == old(ctx).enum_defs@[i].1.name_span
            &&& info.is_generic == old(ctx).enum_defs@[i].1.is_generic
            &&& info.copy_override == def.copy_move
            // Each declared name appears once, with the payload of its first declaration.
            &&& names_unique(info.variants@)
            &&& variants_declared(info.variants@, def.variants@, def.variants@.len() as int)
            &&& variants_cover(info.variants@, def.variants@, def.variants@.len() as int)
            &&& forall|j: int| 0 <= j < def.variants@.len() && #[trigger] repeats_earlier(def.variants@, j)
                ==> dup_variant_reported(final(ctx).errors@, old(ctx).errors@.len() as int, def.name@,
                    def.variants@[j].name@, def.variants@[j].name_span)
        }),
        names_same(final(ctx).enum_defs@, old(ctx).enum_defs@),
        final(ctx).fn_sigs@ == old(ctx).fn_sigs@,
        final(ctx).impl_sigs@ == old(ctx).impl_sigs@,
{
    let idx = match find_key(&ctx.enum_defs, &def.name) {
        Some(i) => i,
        None => {
            return;
        },
    };
    if ctx.enum_defs[idx].1.name_span != def.name_span {
        // A later declaration of a name already declared: the first one wins.
        return;
    }
    let (variants, dups) = dedup_variants(def, ctx);
    let mut d: usize = 0;
    while d < dups.len()
        invariant
            d <= dups@.len(),
            ctx.struct_defs@ == old(ctx).struct_defs@,
            ctx.enum_defs@ == old(ctx).enum_defs@,
            ctx.fn_sigs@ == old(ctx).fn_sigs@,
            ctx.impl_sigs@ == old(ctx).impl_sigs@,
            extends(ctx.errors@, old(ctx).errors@),
            forall|e: int| 0 <= e < d ==> dup_variant_reported(ctx.errors@, old(ctx).errors@.len() as int, def.name@,
                (#[trigger] dups@[e]).0@, dups@[e].2),
        decreases dups@.len() - d,
    {
        let ghost errs0 = ctx.errors@;
        ctx.error(TypeError::DuplicateVariant {
            enum_name: def.name.clone(),
            variant_name: dups[d].0.clone(),
            first_span: dups[d].1,
            duplicate_span: dups[d].2,
        });
        proof {
            assert(ctx.errors@[errs0.len() as int] is DuplicateVariant);
            assert forall|e: int| 0 <= e < d + 1 implies dup_variant_reported(ctx.errors@, old(ctx).errors@.len() as int,
                def.name@, (#[trigger] dups@[e]).0@, dups@[e].2) by {
                if e < d {
                    let w = choose|w: int| old(ctx).errors@.len() <= w < errs0.len() && #[trigger] errs0[w] is DuplicateVariant
                        && errs0[w]->DuplicateVariant_enum_name@ == def.name@ && errs0[w]->DuplicateVariant_variant_name@ == dups@[e].0@
                        && errs0[w]->DuplicateVariant_duplicate_span == dups@[e].2;
                    assert(ctx.errors@[w] == errs0[w]);
                }
            }
        }
        d = d + 1;
    }
    let ghost errs1 = ctx.errors@;
    let mut w: usize = 0;
    while w < variants.len()
        invariant
            w <= variants@.len(),
            ctx.struct_defs@ == old(ctx).struct_defs@,
            ctx.enum_defs@ == old(ctx).enum_defs@,
            ctx.fn_sigs@ == old(ctx).fn_sigs@,
            ctx.impl_sigs@ == old(ctx).impl_sigs@,
            extends(ctx.errors@, old(ctx).errors@),
            ctx.errors@ == errs1,
        decreases variants@.len() - w,
    {
        let vname = &variants[w].0;
        match find_key(&ctx.variant_to_enum, vname) {
            Some(j) => {
                let (key, mut enums) = ctx.variant_to_enum.remove(j);
                enums.push(def.name.clone());
                ctx.variant_to_enum.insert(j, (key, enums));
            },
            None => {
                let mut enums: Vec<String> = Vec::new();
                enums.push(def.name.clone());
                ctx.variant_to_enum.push((vname.clone(), enums));
            },
        }
        w = w + 1;
    }
    let name_span = ctx.enum_defs[idx].1.name_span;
    let is_generic = ctx.enum_defs[idx].1.is_generic;
    let ghost vs = variants@;
    let info = EnumInfo { name_span, variants, copy_override: def.copy_move, is_generic };
    ctx.enum_defs.set(idx, (def.name.clone(), info));
    proof {
        assert(ctx.enum_defs@[idx as int].1.variants@ == vs);
        assert forall|j: int| 0 <= j < def.variants@.len() && #[trigger] repeats_earlier(def.variants@, j)
            implies dup_variant_reported(ctx.errors@, old(ctx).errors@.len() as int, def.name@,
                def.variants@[j].name@, def.variants@[j].name_span) by {
            let d = choose|d: int| 0 <= d < dups@.len() && (#[trigger] dups@[d]).0@ == def.variants@[j].name@
                && dups@[d].2 == def.variants@[j].name_span;
        }
    }
}

/// A function with no parameters, no return type and an empty body.
pub open spec fn empty_fn(f: FunctionDef) -> bool {
    f.params@.len() == 0 && f.return_ty is None && f.body.stmts@.len() == 0 && f.body.tail is None
}

/// A program made only of empty functions, no two with the same name.
pub open spec fn empty_fns_program(ast: &Ast) -> bool {
    &&& forall|j: int| 0 <= j < ast.items@.len() ==> (#[trigger] ast.items@[j] matches Item::Function(f) && empty_fn(f))
    &&& forall|a: int, b: int| 0 <= a < b < ast.items@.len() ==>
        (#[trigger] ast.items@[a])->Function_0.name@ != (#[trigger] ast.items@[b])->Function_0.name@
}

/// Whether an expression's value may move a field out of a value: a field
/// access, or a block, `if` or `match` whose value may.
pub open spec fn may_move_field(e: Expr) -> bool
    decreases e,
{
    match e {
        Expr::Field { .. } => true,
        Expr::Block(b) => match b.tail {
            Some(t) => may_move_field(*t),
            None => false,
        },
        Expr::If { then_block, else_branch, .. } => (match then_block.tail {
            Some(t) => may_move_field(*t),
            None => false,
        }) || (match else_branch {
            Some(x) => may_move_field(*x),
            None => false,
        }),
        Expr::Match { .. } => true,
        _ => false,
    }
}

/// The declaration tables of two contexts agree.
pub open spec fn decls_same(a: &InferCtx, b: &InferCtx) -> bool {
    &&& a.struct_defs@ == b.struct_defs@
    &&& a.enum_defs@ == b.enum_defs@
    &&& a.fn_sigs@ == b.fn_sigs@
    &&& a.impl_sigs@ == b.impl_sigs@
    &&& a.variant_to_enum@ == b.variant_to_enum@
}

/// A function whose parameter and return types are primitive annotations,
/// with no type parameters, whose body is plain (`plain_body`).
pub open spec fn plain_fn(f: FunctionDef) -> bool {
    &&& plain_signature(f)
    &&& plain_body(f.body)
}

/// A function with no type parameters whose parameter and return types are
/// primitive annotations.
pub open spec fn plain_signature(f: FunctionDef) -> bool {
    &&& f.generic_params@.len() == 0
    &&& forall|i: int| 0 <= i < f.params@.len() ==> #[trigger] stmt::prim_annotation(f.params@[i].ty) is Some
    &&& f.return_ty matches Some(t) ==> stmt::prim_annotation(t) is Some
}

/// A body of `let` statements (unannotated or with a primitive annotation)
/// and expression statements, whose values move no field.
pub open spec fn plain_body(b: Block) -> bool {
    &&& forall|k: int| 0 <= k < b.stmts@.len() ==> #[trigger] plain_stmt(b.stmts@[k])
    &&& b.tail matches Some(e) ==> !may_move_field(*e)
}

/// A `let` (unannotated or with a primitive annotation) whose value moves
/// no field, or an expression statement.
pub open spec fn plain_stmt(st: Stmt) -> bool {
    match st {
        Stmt::Let { ty, init, .. } => !may_move_field(*init) && (ty matches Some(a) ==> stmt::prim_annotation(a) is Some),
        Stmt::Expr { .. } => true,
        _ => false,
    }
}

/// The declared return type of a plain function (unit without one).
pub open spec fn declared_view(f: FunctionDef) -> TyV {
    match f.return_ty {
        Some(t) => stmt::prim_annotation(t).unwrap(),
        None => TyV::Unit,
    }
}

/// What a lookup of `n` finds among a plain function's parameters: the type
/// of the last one so named.
pub open spec fn param_get(ps: Seq<crate::ast::Param>, n: Seq<char>) -> Option<TyV>
    decreases ps.len(),
{
    if ps.len() == 0 {
        None
    } else if ps.last().name@ == n {
        stmt::prim_annotation(ps.last().ty)
    } else {
        param_get(ps.drop_last(), n)
    }
}

/// Two environments find the same type for every name.
pub open spec fn same_lookup(a: &Env, b: &Env) -> bool {
    forall|n: Seq<char>| #[trigger] a.get(n) == b.get(n)
}

/// What inferring `e` yields and reports, as `infer_expr` states it.
pub open spec fn expr_reports(ctx: &InferCtx, env: &Env, e: Expr, r: Ty, errs: Seq<TypeError>) -> bool {
    &&& expr::literal_inferred(e, r, ctx.errors@, errs)
    &&& expr::expr_outcome(ctx, env, e, r, errs)
    &&& expr::called_name(e) matches Some(n) ==> expr::call_outcome(
        ctx, env, n, expr::arg_count(e), e.spec_span(), r, errs, expr::call_args(e))
    &&& expr::method_call_outcome(ctx, env, e, r, errs)
    &&& expr::field_access_outcome(ctx, env, e, r, errs)
    &&& expr::struct_lit_outcome(ctx, e, r, errs)
}

/// What a statement binds in the scope after it: a `let` or `const` makes
/// its name find `bound`; other statements bind nothing.
pub open spec fn binds_after(env: &Env, stmt: Stmt, bound: TyV, after: &Env) -> bool {
    match stmt::stmt_binds(stmt) {
        Some(n) => forall|m: Seq<char>| #[trigger] after.get(m) == if m == n { Some(bound) } else { env.get(m) },
        None => same_lookup(after, env),
    }
}

/// One statement's step in a block: checked (as `infer_stmt` states it,
/// under the tables of `decls`) in scope `env` from errors `before`, with
/// scope `after` following it.
pub open spec fn stmt_step(decls: &InferCtx, env: &Env, stmt: Stmt, ret: TyV, before: Seq<TypeError>,
    errs: Seq<TypeError>, after: &Env) -> bool {
    exists|c: InferCtx, bound: TyV| {
        &&& decls_same(&c, decls) && c.errors@ == before
        &&& #[trigger] stmt::stmt_reports(&c, env, stmt, ret, bound, errs)
        &&& binds_after(env, stmt, bound, after)
    }
}

/// The statements of a block checked one after the other in a function
/// returning `ret`: `stages[k]` are the errors before statement `k`,
/// `envs[k]` the scope it is checked in, the first finding what `env` finds.
pub open spec fn stmts_reports(decls: &InferCtx, env: &Env, stmts: Seq<Stmt>, ret: TyV,
    stages: Seq<Seq<TypeError>>, envs: Seq<Env>) -> bool {
    &&& stages.len() == stmts.len() + 1 && envs.len() == stmts.len() + 1
    &&& same_lookup(&envs[0], env)
    &&& forall|k: int| 0 <= k < stmts.len() ==> #[trigger] stmt_step(decls, &envs[k], stmts[k], ret, stages[k], stages[k + 1], &envs[k + 1])
}

/// What a block yields (`t`) and reports (`errs`) in a function returning
/// `ret`: its statements one after the other, then its tail (unit without
/// one) in the scope they leave.
pub open spec fn body_value(ctx: &InferCtx, env: &Env, b: Block, ret: TyV, t: Ty, errs: Seq<TypeError>) -> bool {
    exists|stages: Seq<Seq<TypeError>>, envs: Seq<Env>| {
        &&& #[trigger] stmts_reports(ctx, env, b.stmts@, ret, stages, envs)
        &&& stages[0] == ctx.errors@
        &&& match b.tail {
            Some(e) => exists|c2: InferCtx, e2: Env| decls_same(&c2, ctx) && c2.errors@ == stages.last()
                && same_lookup(&e2, &envs.last()) && #[trigger] expr_reports(&c2, &e2, *e, t, errs),
            None => t is Unit && errs == stages.last(),
        }
    }
}

/// The return check of a body of type `t` against declared type `d`: a
/// mismatch at `span` when they differ (unless `t` is in error).
pub open spec fn return_checked(mid: Seq<TypeError>, t: Ty, d: TyV, span: Span, errs: Seq<TypeError>) -> bool {
    if !(t is Error) && d != TyV::Error && t@ != d {
        &&& expr::one_more(errs, mid)
        &&& errs.last() matches TypeError::ReturnMismatch { expected, found, span: s, .. }
        &&& expected@ == d && found == t && s == span
    } else {
        errs == mid
    }
}

/// What checking a plain function reports, starting from errors `before`
/// with declaration tables `decls`: its body's value is inferred with the
/// parameters bound, then checked against the declared return type.
pub open spec fn fn_reports(decls: &InferCtx, f: FunctionDef, before: Seq<TypeError>, after: Seq<TypeError>) -> bool {
    exists|c: InferCtx, env: Env, t: Ty, mid: Seq<TypeError>| {
        &&& decls_same(&c, decls) && c.errors@ == before
        &&& forall|n: Seq<char>| #[trigger] env.get(n) == param_get(f.params@, n)
        &&& #[trigger] body_value(&c, &env, f.body, declared_view(f), t, mid)
        &&& return_checked(mid, t, declared_view(f), f.body.span, after)
    }
}

/// A program made only of plain functions, no two with the same name.
pub open spec fn plain_program(ast: &Ast) -> bool {
    &&& forall|j: int| 0 <= j < ast.items@.len() ==> (#[trigger] ast.items@[j] matches Item::Function(f) && plain_fn(f))
    &&& forall|a: int, b: int| 0 <= a < b < ast.items@.len() ==>
        (#[trigger] ast.items@[a])->Function_0.name@ != (#[trigger] ast.items@[b])->Function_0.name@
}

/// The declaration tables of a plain program: one signature per function,
/// in order, with its parameter and return types; nothing else.
pub open spec fn plain_tables(ast: &Ast, c: &InferCtx) -> bool {
    &&& c.struct_defs@.len() == 0 && c.enum_defs@.len() == 0 && c.impl_sigs@.len() == 0 && c.variant_to_enum@.len() == 0
    &&& c.fn_sigs@.len() == ast.items@.len()
    &&& forall|j: int| 0 <= j < ast.items@.len() ==> sig_of_plain(#[trigger] c.fn_sigs@[j], ast.items@[j]->Function_0)
}

/// A signature entry registered for plain function `f`.
pub open spec fn sig_of_plain(entry: (String, (FnSig, Span)), f: FunctionDef) -> bool {
    let sig = entry.1.0;
    &&& entry.0@ == f.name@ && entry.1.1 == f.name_span
    &&& !sig.is_generic && !sig.self_consuming
    &&& sig.params@.len() == f.params@.len()
    &&& forall|i: int| 0 <= i < f.params@.len() ==> Some((#[trigger] sig.params@[i])@) == stmt::prim_annotation(f.params@[i].ty)
    &&& sig.return_ty@ == declared_view(f)
}

/// What checking the functions of a plain program reports, function by
/// function: `stages[j]` are the errors before the `j`-th, the last entry
/// all of them.
pub open spec fn program_reports(ast: &Ast, decls: &InferCtx, stages: Seq<Seq<TypeError>>) -> bool {
    &&& stages.len() == ast.items@.len() + 1
    &&& stages[0] == Seq::<TypeError>::empty()
    &&& forall|j: int| 0 <= j < ast.items@.len() ==> fn_reports(decls, (#[trigger] ast.items@[j])->Function_0, stages[j], stages[j + 1])
}

/// Every declared struct, enum and function name has an entry in the
/// tables, and every method of every `impl` block is in its type's namespace.
pub open spec fn declarations_registered(ast: &Ast, ctx: &InferCtx) -> bool {
    &&& forall|j: int| 0 <= j < ast.items@.len() ==> (#[trigger] ast.items@[j] matches Item::Struct(d) ==> has_key(ctx.struct_defs@, d.name@))
    &&& forall|j: int| 0 <= j < ast.items@.len() ==> (#[trigger] ast.items@[j] matches Item::Enum(d) ==> has_key(ctx.enum_defs@, d.name@))
    &&& forall|j: int| 0 <= j < ast.items@.len() ==> (#[trigger] ast.items@[j] matches Item::Function(f) ==> has_key(ctx.fn_sigs@, f.name@))
    &&& forall|j: int| 0 <= j < ast.items@.len() ==> impl_registered(#[trigger] ast.items@[j], ctx.impl_sigs@)
}

/// Every method of an `impl` item is in its type's namespace.
pub open spec fn impl_registered(it: Item, sigs: MethodTable) -> bool {
    match it {
        Item::Impl(b) => forall|k: int| 0 <= k < b.methods@.len()
            ==> has_method(sigs, b.ty_name@, (#[trigger] b.methods@[k]).name@),
        _ => true,
    }
}

/// Whether the body of every function an item declares has a recorded
/// type: a function's own, each method of an `impl`.
pub open spec fn bodies_typed(item: Item, m: Seq<(Span, Ty)>) -> bool {
    match item {
        Item::Function(f) => type_at(m, f.body.span) is Some,
        Item::Impl(b) => forall|k: int| 0 <= k < b.methods@.len() ==> type_at(m, (#[trigger] b.methods@[k]).body.span) is Some,
        _ => true,
    }
}

/// Bodies typed in one map stay typed in any map that keeps its types.
pub proof fn lemma_bodies_typed_kept(item: Item, new: Seq<(Span, Ty)>, old: Seq<(Span, Ty)>)
    requires
        map_kept(new, old),
        bodies_typed(item, old),
    ensures
        bodies_typed(item, new),
{
    match item {
        Item::Function(f) => {
            assert(type_at(old, f.body.span) is Some);
        },
        Item::Impl(b) => {
            assert forall|k: int| 0 <= k < b.methods@.len() implies type_at(new, (#[trigger] b.methods@[k]).body.span) is Some by {
                assert(type_at(old, b.methods@[k].body.span) is Some);
            }
        },
        _ => {},
    }
}

/// Runs both passes over a program: declarations are collected first (struct
/// names, enum names, struct fields, enum variants, then function and method
/// signatures, so that any item may refer to any other), then every function
/// and method body is checked.
#[verifier::loop_isolation(false)]
fn run_passes(ast: &Ast) -> (ctx: InferCtx)
    ensures
        declarations_registered(ast, &ctx),
        forall|j: int| 0 <= j < ast.items@.len() ==> bodies_typed(#[trigger] ast.items@[j], ctx.type_map@),
        ast.items@.len() == 0 ==> ctx.errors@.len() == 0,
        empty_fns_program(ast) ==> ctx.errors@.len() == 0,
        plain_program(ast) ==> exists|decls: InferCtx, stages: Seq<Seq<TypeError>>| {
            &&& plain_tables(ast, &decls)
            &&& #[trigger] program_reports(ast, &decls, stages)
            &&& stages.last() == ctx.errors@
        },
{
    let mut ctx = InferCtx::new();
    let n = ast.items.len();
    let mut i: usize = 0;
    while i < n
        invariant
            n == ast.items@.len(),
            i <= n,
            n == 0 ==> ctx.errors@.len() == 0,
            empty_fns_program(ast) ==> ctx.errors@.len() == 0 && ctx.fn_sigs@.len() == 0,
            plain_program(ast) ==> ctx.errors@.len() == 0 && ctx.fn_sigs@.len() == 0 && ctx.struct_defs@.len() == 0
                && ctx.enum_defs@.len() == 0 && ctx.impl_sigs@.len() == 0 && ctx.variant_to_enum@.len() == 0,
            forall|j: int| 0 <= j < i ==> (#[trigger] ast.items@[j] matches Item::Struct(d) ==> has_key(ctx.struct_defs@, d.name@)),
        decreases n - i,
    {
        if let Item::Struct(def) = &ast.items[i] {
            collect_struct_name(def, &mut ctx);
        }
        i = i + 1;
    }
    i = 0;
    while i < n
        invariant
            n == ast.items@.len(),
            i <= n,
            n == 0 ==> ctx.errors@.len() == 0,
            empty_fns_program(ast) ==> ctx.errors@.len() == 0 && ctx.fn_sigs@.len() == 0,
            plain_program(ast) ==> ctx.errors@.len() == 0 && ctx.fn_sigs@.len() == 0 && ctx.struct_defs@.len() == 0
                && ctx.enum_defs@.len() == 0 && ctx.impl_sigs@.len() == 0 && ctx.variant_to_enum@.len() == 0,
            forall|j: int| 0 <= j < n ==> (#[trigger] ast.items@[j] matches Item::Struct(d) ==> has_key(ctx.struct_defs@, d.name@)),
            forall|j: int| 0 <= j < i ==> (#[trigger] ast.items@[j] matches Item::Enum(d) ==> has_key(ctx.enum_defs@, d.name@)),
        decreases n - i,
    {
        if let Item::Enum(def) = &ast.items[i] {
            collect_enum_name(def, &mut ctx);
        }
        i = i + 1;
    }
    i = 0;
    while i < n
        invariant
            n == ast.items@.len(),
            i <= n,
            n == 0 ==> ctx.errors@.len() == 0,
            empty_fns_program(ast) ==> ctx.errors@.len() == 0 && ctx.fn_sigs@.len() == 0,
            plain_program(ast) ==> ctx.errors@.len() == 0 && ctx.fn_sigs@.len() == 0 && ctx.struct_defs@.len() == 0
                && ctx.enum_defs@.len() == 0 && ctx.impl_sigs@.len() == 0 && ctx.variant_to_enum@.len() == 0,
            forall|j: int| 0 <= j < n ==> (#[trigger] ast.items@[j] matches Item::Struct(d) ==> has_key(ctx.struct_defs@, d.name@)),
            forall|j: int| 0 <= j < n ==> (#[trigger] ast.items@[j] matches Item::Enum(d) ==> has_key(ctx.enum_defs@, d.name@)),
        decreases n - i,
    {
        if let Item::Struct(def) = &ast.items[i] {
            let ghost before = ctx.struct_defs@;
            collect_struct_fields(def, &mut ctx);
            proof {
                lemma_names_same_keys_kept(ctx.struct_defs@, before);
            }
        }
        i = i + 1;
    }
    i = 0;
    while i < n
        invariant
            n == ast.items@.len(),
            i <= n,
            n == 0 ==> ctx.errors@.len() == 0,
            empty_fns_program(ast) ==> ctx.errors@.len() == 0 && ctx.fn_sigs@.len() == 0,
            plain_program(ast) ==> ctx.errors@.len() == 0 && ctx.fn_sigs@.len() == 0 && ctx.struct_defs@.len() == 0
                && ctx.enum_defs@.len() == 0 && ctx.impl_sigs@.len() == 0 && ctx.variant_to_enum@.len() == 0,
            forall|j: int| 0 <= j < n ==> (#[trigger] ast.items@[j] matches Item::Struct(d) ==> has_key(ctx.struct_defs@, d.name@)),
            forall|j: int| 0 <= j < n ==> (#[trigger] ast.items@[j] matches Item::Enum(d) ==> has_key(ctx.enum_defs@, d.name@)),
        decreases n - i,
    {
        if let Item::Enum(def) = &ast.items[i] {
            let ghost before = ctx.enum_defs@;
            collect_enum_variants(def, &mut ctx);
            proof {
                lemma_names_same_keys_kept(ctx.enum_defs@, before);
            }
        }
        i = i + 1;
    }
    i = 0;
    while i < n
        invariant
            n == ast.items@.len(),
            i <= n,
            n == 0 ==> ctx.errors@.len() == 0,
            empty_fns_program(ast) ==> ctx.errors@.len() == 0,
            empty_fns_program(ast) ==> forall|nm: Seq<char>| has_key(ctx.fn_sigs@, nm) ==> exists|j: int| 0 <= j < i
                && (#[trigger] ast.items@[j])->Function_0.name@ == nm,
            forall|j: int| 0 <= j < n ==> (#[trigger] ast.items@[j] matches Item::Struct(d) ==> has_key(ctx.struct_defs@, d.name@)),
            forall|j: int| 0 <= j < n ==> (#[trigger] ast.items@[j] matches Item::Enum(d) ==> has_key(ctx.enum_defs@, d.name@)),
            forall|j: int| 0 <= j < i ==> (#[trigger] ast.items@[j] matches Item::Function(f) ==> has_key(ctx.fn_sigs@, f.name@)),
            forall|j: int| 0 <= j < i ==> impl_registered(#[trigger] ast.items@[j], ctx.impl_sigs@),
            plain_program(ast) ==> ctx.errors@.len() == 0 && ctx.fn_sigs@.len() == i && ctx.struct_defs@.len() == 0
                && ctx.enum_defs@.len() == 0 && ctx.impl_sigs@.len() == 0 && ctx.variant_to_enum@.len() == 0,
            plain_program(ast) ==> forall|j: int| 0 <= j < i ==> sig_of_plain(#[trigger] ctx.fn_sigs@[j], ast.items@[j]->Function_0),
        decreases n - i,
    {
        let ghost sigs0 = ctx.fn_sigs@;
        proof {
            if plain_program(ast) {
                let f = ast.items@[i as int]->Function_0;
                assert(ast.items@[i as int] matches Item::Function(g) && plain_fn(g));
                if has_key(sigs0, f.name@) {
                    let k = choose|k: int| 0 <= k < sigs0.len() && #[trigger] sigs0[k].0@ == f.name@;
                    assert(sig_of_plain(sigs0[k], ast.items@[k]->Function_0));
                    assert(ast.items@[k]->Function_0.name@ != ast.items@[i as int]->Function_0.name@);
                }
            }
        }
        proof {
            if empty_fns_program(ast) {
                let f = ast.items@[i as int]->Function_0;
                if has_key(sigs0, f.name@) {
                    let j = choose|j: int| 0 <= j < i && (#[trigger] ast.items@[j])->Function_0.name@ == f.name@;
                    assert(ast.items@[j]->Function_0.name@ != ast.items@[i as int]->Function_0.name@);
                }
            }
        }
        match &ast.items[i] {
            Item::Function(f) => collect_fn_sig(f, &mut ctx),
            Item::Impl(block) => collect_impl_sigs(block, &mut ctx),
            _ => {},
        }
        proof {
            if plain_program(ast) {
                assert forall|j: int| 0 <= j < i + 1 implies sig_of_plain(#[trigger] ctx.fn_sigs@[j], ast.items@[j]->Function_0) by {
                    if j < i {
                        assert(ctx.fn_sigs@[j] == sigs0[j]);
                    }
                }
            }
            if empty_fns_program(ast) {
                let f = ast.items@[i as int]->Function_0;
                assert forall|nm: Seq<char>| has_key(ctx.fn_sigs@, nm) implies exists|j: int| 0 <= j < i + 1
                    && (#[trigger] ast.items@[j])->Function_0.name@ == nm by {
                    let k = choose|k: int| 0 <= k < ctx.fn_sigs@.len() && #[trigger] ctx.fn_sigs@[k].0@ == nm;
                    if k < sigs0.len() {
                        assert(ctx.fn_sigs@[k] == ctx.fn_sigs@.drop_last()[k]);
                        assert(has_key(sigs0, nm));
                    } else {
                        assert(ast.items@[i as int]->Function_0.name@ == nm);
                    }
                }
            }
        }
        i = i + 1;
    }
    let mut env = Env::new();
    let ghost collected = ctx;
    let ghost mut stages: Seq<Seq<TypeError>> = seq![Seq::<TypeError>::empty()];
    proof {
        if plain_program(ast) {
            assert(plain_tables(ast, &collected));
        }
    }
    i = 0;
    while i < n
        invariant
            n == ast.items@.len(),
            i <= n,
            n == 0 ==> ctx.errors@.len() == 0,
            empty_fns_program(ast) ==> ctx.errors@.len() == 0,
            env.frames() == seq![Seq::<(String, Ty)>::empty()],
            ctx_step(&ctx, &collected),
            declarations_registered(ast, &collected),
            forall|j: int| 0 <= j < i ==> bodies_typed(#[trigger] ast.items@[j], ctx.type_map@),
            plain_program(ast) ==> plain_tables(ast, &collected),
            plain_program(ast) ==> stages.len() == i + 1 && stages[0] == Seq::<TypeError>::empty()
                && stages.last() == ctx.errors@
                && forall|j: int| 0 <= j < i ==> fn_reports(&collected, (#[trigger] ast.items@[j])->Function_0, stages[j], stages[j + 1]),
        decreases n - i,
    {
        let ghost before = ctx.type_map@;
        let ghost ctx_i = ctx;
        match &ast.items[i] {
            Item::Function(f) => infer_fn(f, &mut ctx, &mut env),
            Item::Impl(block) => infer_impl_methods(block, &mut ctx, &mut env),
            _ => {},
        }
        proof {
            if plain_program(ast) {
                let f = ast.items@[i as int]->Function_0;
                assert(ast.items@[i as int] matches Item::Function(g) && plain_fn(g));
                lemma_fn_reports_decls(&ctx_i, &collected, f, ctx_i.errors@, ctx.errors@);
                let s0 = stages;
                stages = stages.push(ctx.errors@);
                assert forall|j: int| 0 <= j < i + 1 implies fn_reports(&collected, (#[trigger] ast.items@[j])->Function_0, stages[j], stages[j + 1]) by {
                    if j < i {
                        assert(stages[j] == s0[j] && stages[j + 1] == s0[j + 1]);
                    }
                }
            }
        }
        proof {
            assert forall|j: int| 0 <= j < i + 1 implies bodies_typed(#[trigger] ast.items@[j], ctx.type_map@) by {
                if j < i {
                    lemma_bodies_typed_kept(ast.items@[j], ctx.type_map@, before);
                }
            }
        }
        i = i + 1;
    }
    proof {
        if plain_program(ast) {
            assert(program_reports(ast, &collected, stages));
        }
    }
    ctx
}

/// What a plain function's check reports depends on the declaration tables
/// alone, not on the rest of the context.
proof fn lemma_fn_reports_decls(d1: &InferCtx, d2: &InferCtx, f: FunctionDef, before: Seq<TypeError>, after: Seq<TypeError>)
    requires
        decls_same(d1, d2),
        fn_reports(d1, f, before, after),
    ensures
        fn_reports(d2, f, before, after),
{
    let (c, env, t, mid) = choose|c: InferCtx, env: Env, t: Ty, mid: Seq<TypeError>| {
        &&& decls_same(&c, d1) && c.errors@ == before
        &&& forall|n: Seq<char>| #[trigger] env.get(n) == param_get(f.params@, n)
        &&& #[trigger] body_value(&c, &env, f.body, declared_view(f), t, mid)
        &&& return_checked(mid, t, declared_view(f), f.body.span, after)
    };
    assert(body_value(&c, &env, f.body, declared_view(f), t, mid));
}



/// Splits the errors of a finished pass: if any is fatal, `Err` with the
/// fatal ones in order; otherwise `Ok` with all of them (all deferred).
#[verifier::loop_isolation(false)]
pub fn partition_errors(errors: Vec<TypeError>) -> (r: Result<Vec<TypeError>, Vec<TypeError>>)
    ensures
        match r {
            Ok(deferred) => deferred@ == errors@ && forall|i: int| 0 <= i < deferred@.len() ==> #[trigger] deferred@[i] is Deferred,
            Err(fatal) => fatal@ == errors@.filter(|e: TypeError| is_fatal_error(e)) && fatal@.len() > 0
                && exists|i: int| 0 <= i < errors@.len() && is_fatal_error(#[trigger] errors@[i]),
        },
{
    let mut fatal: Vec<TypeError> = Vec::new();
    let mut deferred: Vec<TypeError> = Vec::new();
    let mut errors = errors;
    let ghost all = errors@;
    let ghost mut i: int = 0;
    while errors.len() > 0
        invariant
            0 <= i <= all.len(),
            errors@ == all.subrange(i, all.len() as int),
            fatal@ == all.subrange(0, i).filter(|e: TypeError| is_fatal_error(e)),
            forall|k: int| 0 <= k < deferred@.len() ==> #[trigger] deferred@[k] is Deferred,
            fatal@.len() == 0 ==> deferred@ == all.subrange(0, i),
            fatal@.len() > 0 ==> exists|j: int| 0 <= j < i && is_fatal_error(#[trigger] all[j]),
        decreases errors@.len(),
    {
        let e = errors.remove(0);
        proof {
            reveal(Seq::filter);
            assert(all.subrange(0, i + 1).drop_last() =~= all.subrange(0, i));
            assert(all.subrange(0, i + 1).last() == all[i]);
            assert(all[i] == e);
            if fatal@.len() == 0 {
                assert(all.subrange(0, i).push(e) =~= all.subrange(0, i + 1));
            }
            i = i + 1;
            assert(errors@ =~= all.subrange(i, all.len() as int));
        }
        if e.is_fatal() {
            fatal.push(e);
        } else {
            deferred.push(e);
        }
    }
    proof {
        assert(all.subrange(0, all.len() as int) =~= all);
    }
    if fatal.len() > 0 {
        Err(fatal)
    } else {
        Ok(deferred)
    }
}

/// How a finished pass that found errors `all` answers: `Ok` with all of
/// them when none is fatal, else `Err` with the fatal ones in order.
pub open spec fn split_outcome(all: Seq<TypeError>, r: Result<InferResult, Vec<TypeError>>) -> bool {
    match r {
        Ok(res) => res.deferred@ == all && forall|i: int| 0 <= i < all.len() ==> !is_fatal_error(#[trigger] all[i]),
        Err(errs) => errs@ == all.filter(|e: TypeError| is_fatal_error(e))
            && exists|i: int| 0 <= i < all.len() && is_fatal_error(#[trigger] all[i]),
    }
}

/// What inference answers for a plain program: the split of what checking
/// its functions, one after the other, reports.
pub open spec fn plain_program_outcome(ast: &Ast, r: Result<InferResult, Vec<TypeError>>) -> bool {
    exists|decls: InferCtx, stages: Seq<Seq<TypeError>>| {
        &&& plain_tables(ast, &decls)
        &&& #[trigger] program_reports(ast, &decls, stages)
        &&& split_outcome(stages.last(), r)
    }
}

/// Runs inference over a parsed program: `Ok` when no fatal error was found,
/// with the deferred diagnostics; otherwise `Err` with the fatal errors in the
/// order found.
pub fn run(ast: &Ast) -> (r: Result<InferResult, Vec<TypeError>>)
    ensures
        r matches Ok(res) ==> forall|i: int| 0 <= i < res.deferred@.len() ==> #[trigger] res.deferred@[i] is Deferred,
        r matches Err(errs) ==> errs@.len() > 0 && forall|i: int| 0 <= i < errs@.len() ==> is_fatal_error(#[trigger] errs@[i]),
        r matches Ok(res) ==> forall|j: int| 0 <= j < ast.items@.len() ==>
            (#[trigger] ast.items@[j] matches crate::ast::Item::Struct(d) ==> has_key(res.struct_defs@, d.name@)),
        r matches Ok(res) ==> forall|j: int| 0 <= j < ast.items@.len() ==>
            impl_registered(#[trigger] ast.items@[j], res.impl_sigs@),
        r matches Ok(res) ==> forall|j: int| 0 <= j < ast.items@.len() ==>
            bodies_typed(#[trigger] ast.items@[j], res.type_map@),
        ast.items@.len() == 0 ==> (r matches Ok(res) && res.deferred@.len() == 0),
        empty_fns_program(ast) ==> (r matches Ok(res) && res.deferred@.len() == 0),
        plain_program(ast) ==> plain_program_outcome(ast, r),
{
    let ctx = run_passes(ast);
    let ghost all = ctx.errors@;
    let ghost witness = choose|decls: InferCtx, stages: Seq<Seq<TypeError>>| {
        &&& plain_tables(ast, &decls)
        &&& #[trigger] program_reports(ast, &decls, stages)
        &&& stages.last() == all
    };
    match partition_errors(ctx.errors) {
        Ok(deferred) => {
            let r = Ok(InferResult {
                type_map: ctx.type_map,
                deferred,
                struct_defs: ctx.struct_defs,
                impl_sigs: ctx.impl_sigs,
            });
            proof {
                if plain_program(ast) {
                    assert(program_reports(ast, &witness.0, witness.1));
                    assert(split_outcome(all, r));
                }
            }
            r
        },
        Err(fatal) => {
            proof {
                if plain_program(ast) {
                    assert(program_reports(ast, &witness.0, witness.1));
                    assert(split_outcome(all, Err::<InferResult, Vec<TypeError>>(fatal)));
                }
            }
            proof {
                broadcast use vstd::seq_lib::group_filter_ensures;
                assert forall|i: int| 0 <= i < fatal@.len() implies is_fatal_error(#[trigger] fatal@[i]) by {
                    assert(fatal@[i] == ctx.errors@.filter(|e: TypeError| is_fatal_error(e))[i]);
                }
            }
            Err(fatal)
        },
    }
}

} // verus!
