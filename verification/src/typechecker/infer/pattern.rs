//! Inference of `match`: arm patterns, arm types, reachability, exhaustiveness.
use vstd::prelude::*;
use crate::ast::{Expr, Literal, MatchArm, Pattern};
use crate::lexer::Span;
use crate::text::owned;
use super::super::env::{find_key, first_key_index, has_key, lemma_record_keeps, Env, InferCtx};
use super::super::error::TypeError;
use super::super::ty::{dup_tys, ty_view, Ty, TyV};
use super::{ctx_step, extends, tables_same};
use super::expr::{infer_expr, infer_literal, keys_of, known_ty, literal_ty};

verus! {

/// The payload types of variant `v` of the enum the subject type names,
/// where it names a declared enum that has such a variant.
pub open spec fn subject_variant(ctx: &InferCtx, subject: Ty, v: Seq<char>) -> Option<Seq<Ty>> {
    let defs = ctx.enum_defs@;
    match subject {
        Ty::Named(e) => if has_key(defs, e@) {
            let vs = defs[first_key_index(defs, e@)].1.variants@;
            if has_key(vs, v) { Some(vs[first_key_index(vs, v)].1@) } else { None }
        } else {
            None
        },
        _ => None,
    }
}

/// What a constructor pattern `v(subs)` reports and covers: the subject must
/// name a declared enum with a tuple variant `v` of as many payload fields
/// as sub-patterns; then `v` is covered.
pub open spec fn constructor_outcome(
    ctx: &InferCtx,
    subject: Ty,
    v: Seq<char>,
    subs: int,
    new_errs: Seq<TypeError>,
    new_covered: Seq<String>,
    old_covered: Seq<String>,
    name_span: Span,
    span: Span,
) -> bool {
    let one = super::expr::one_more(new_errs, ctx.errors@);
    let defs = ctx.enum_defs@;
    let enum_known = subject matches Ty::Named(e) && has_key(defs, e@);
    let en = match subject {
        Ty::Named(e) => e@,
        _ => Seq::empty(),
    };
    if !enum_known {
        &&& one
        &&& new_errs.last() matches TypeError::PatternTypeMismatch { subject_ty, span: s }
        &&& subject_ty == subject && s == span && new_covered == old_covered
    } else {
        match subject_variant(ctx, subject, v) {
            None => {
                &&& one
                &&& new_errs.last() matches TypeError::PatternVariantNotFound { enum_name: a, variant_name: b, span: s, .. }
                &&& a@ == en && b@ == v && s == name_span && new_covered == old_covered
            },
            Some(p) => if p.len() == 0 {
                &&& one
                &&& new_errs.last() matches TypeError::UnitVariantInConstructorPattern { enum_name: a, variant_name: b, span: s }
                &&& a@ == en && b@ == v && s == span && new_covered == old_covered
            } else if p.len() != subs {
                &&& one
                &&& new_errs.last() matches TypeError::PatternArgCountMismatch { enum_name: a, variant_name: b, expected, found, span: s }
                &&& a@ == en && b@ == v && expected == p.len() && found == subs && s == span && new_covered == old_covered
            } else {
                new_covered.len() == old_covered.len() + 1 && new_covered.drop_last() == old_covered
                    && new_covered.last()@ == v
            },
        }
    }
}

/// Checks a pattern against the subject's type, binding names in the
/// innermost scope. Unit variants named (or tuple variants fully
/// destructured) are added to `covered`, `true`/`false` literals to the
/// flags. Returns whether the pattern matches every value (`_`, or a name
/// that is not a variant of the subject's enum).
#[verifier::loop_isolation(false)]
pub fn check_pattern(
    pattern: &Pattern,
    subject_ty: &Ty,
    ctx: &mut InferCtx,
    env: &mut Env,
    covered: &mut Vec<String>,
    true_covered: &mut bool,
    false_covered: &mut bool,
) -> (catch_all: bool)
    requires
        old(env).frames().len() > 0,
    ensures
        ctx_step(final(ctx), old(ctx)),
        final(env).frames().len() == old(env).frames().len(),
        final(env).frames().drop_last() == old(env).frames().drop_last(),
        *pattern is Wildcard ==> catch_all && final(ctx).errors@ == old(ctx).errors@,
        (*pattern is Literal || *pattern is Constructor) ==> !catch_all,
        *old(true_covered) ==> *final(true_covered),
        *old(false_covered) ==> *final(false_covered),
        *pattern matches Pattern::Literal(Literal::Bool(b), _) ==> (if b { *final(true_covered) } else { *final(false_covered) }),
        final(covered)@.len() >= old(covered)@.len(),
        final(covered)@.subrange(0, old(covered)@.len() as int) == old(covered)@,
        (*pattern is Wildcard || *pattern is Literal) ==> final(covered)@ == old(covered)@,
        *pattern matches Pattern::Name(n, _) ==> match subject_variant(old(ctx), *subject_ty, n@) {
            Some(p) => {
                &&& !catch_all
                &&& final(covered)@ == old(covered)@.push(n)
                &&& final(env).frames() == old(env).frames()
                &&& p.len() == 0 ==> final(ctx).errors@ == old(ctx).errors@
                &&& p.len() > 0 ==> super::expr::one_more(final(ctx).errors@, old(ctx).errors@)
                &&& p.len() > 0 ==> (final(ctx).errors@.last() matches TypeError::TupleVariantMissingPatternPayload {
                    enum_name: a, variant_name: b, span: s } && b@ == n@ && s == pattern.spec_span()
                    && (*subject_ty matches Ty::Named(e) && a@ == e@))
            },
            None => {
                &&& catch_all
                &&& final(covered)@ == old(covered)@
                &&& final(ctx).errors@ == old(ctx).errors@
                &&& final(env).frames().last() == old(env).frames().last().push((n, *subject_ty))
            },
        },
        *pattern matches Pattern::Constructor { name, name_span, sub_patterns, span } ==> constructor_outcome(
            old(ctx), *subject_ty, name@, sub_patterns@.len() as int, final(ctx).errors@, final(covered)@, old(covered)@,
            name_span, span),
    decreases pattern,
{
    match pattern {
        Pattern::Wildcard(_) => true,
        Pattern::Name(name, _) => {
            let payload: Option<usize> = match subject_ty {
                Ty::Named(enum_name) => match find_key(&ctx.enum_defs, enum_name) {
                    Some(e) => match find_key(&ctx.enum_defs[e].1.variants, name) {
                        Some(v) => Some(ctx.enum_defs[e].1.variants[v].1.len()),
                        None => None,
                    },
                    None => None,
                },
                _ => None,
            };
            match payload {
                Some(0) => {
                    // A unit variant: covers it.
                    covered.push(name.clone());
                    false
                },
                Some(_) => {
                    // A tuple variant without its payload: reported, and counted as
                    // covered so that exhaustiveness does not report it again.
                    let enum_name = match subject_ty {
                        Ty::Named(n) => n.clone(),
                        _ => owned(""),
                    };
                    ctx.error(TypeError::TupleVariantMissingPatternPayload {
                        enum_name,
                        variant_name: name.clone(),
                        span: pattern.span(),
                    });
                    proof { assert(ctx.errors@.drop_last() =~= old(ctx).errors@); }
                    covered.push(name.clone());
                    false
                },
                None => {
                    // Not a variant of the subject's enum: a binding that catches everything.
                    env.define(name.clone(), subject_ty.dup());
                    proof {
                        assert(env.frames().drop_last() =~= old(env).frames().drop_last());
                    }
                    true
                },
            }
        },
        Pattern::Constructor { name, name_span, sub_patterns, span } => {
            let enum_idx: Option<usize> = match subject_ty {
                Ty::Named(enum_name) => find_key(&ctx.enum_defs, enum_name),
                _ => None,
            };
            match enum_idx {
                Some(e) => {
                    let enum_name = ctx.enum_defs[e].0.clone();
                    match find_key(&ctx.enum_defs[e].1.variants, name) {
                        None => {
                            let available = keys_of(&ctx.enum_defs[e].1.variants);
                            ctx.error(TypeError::PatternVariantNotFound {
                                enum_name,
                                variant_name: name.clone(),
                                span: *name_span,
                                available,
                            });
                            proof { assert(ctx.errors@.drop_last() =~= old(ctx).errors@); }
                        },
                        Some(v) => {
                            let payload_tys = dup_tys(&ctx.enum_defs[e].1.variants[v].1);
                            if payload_tys.len() == 0 {
                                ctx.error(TypeError::UnitVariantInConstructorPattern {
                                    enum_name,
                                    variant_name: name.clone(),
                                    span: *span,
                                });
                                proof { assert(ctx.errors@.drop_last() =~= old(ctx).errors@); }
                            } else if payload_tys.len() != sub_patterns.len() {
                                ctx.error(TypeError::PatternArgCountMismatch {
                                    enum_name,
                                    variant_name: name.clone(),
                                    expected: payload_tys.len(),
                                    found: sub_patterns.len(),
                                    span: *span,
                                });
                                proof { assert(ctx.errors@.drop_last() =~= old(ctx).errors@); }
                            } else {
                                let mut i: usize = 0;
                                while i < sub_patterns.len()
                                    invariant
                                        i <= sub_patterns@.len(),
                                        payload_tys@.len() == sub_patterns@.len(),
                                        ctx_step(ctx, old(ctx)),
                                        env.frames().len() == old(env).frames().len(),
                                        env.frames().drop_last() == old(env).frames().drop_last(),
                                        *pattern matches Pattern::Constructor { sub_patterns: s, .. } && s == sub_patterns,
                                    decreases sub_patterns@.len() - i,
                                {
                                    proof {
                                        assert(decreases_to!(pattern => sub_patterns@[i as int]));
                                    }
                                    // Sub-patterns do not cover variants of the subject's enum.
                                    let mut sub_covered: Vec<String> = Vec::new();
                                    let mut sub_true = false;
                                    let mut sub_false = false;
                                    check_pattern(&sub_patterns[i], &payload_tys[i], ctx, env,
                                        &mut sub_covered, &mut sub_true, &mut sub_false);
                                    i = i + 1;
                                }
                                covered.push(name.clone());
                            }
                        },
                    }
                },
                None => {
                    ctx.error(TypeError::PatternTypeMismatch { subject_ty: subject_ty.dup(), span: *span });
                    proof { assert(ctx.errors@.drop_last() =~= old(ctx).errors@); }
                },
            }
            false
        },
        Pattern::Literal(lit, lit_span) => {
            let lit_ty = infer_literal(lit);
            let base = match subject_ty {
                Ty::Ref { inner, .. } => (**inner).dup(),
                other => other.dup(),
            };
            if !lit_ty.is_error() && !lit_ty.same(&base) && !subject_ty.is_error() {
                ctx.error(TypeError::PatternTypeMismatch { subject_ty: subject_ty.dup(), span: *lit_span });
                proof { assert(ctx.errors@.drop_last() =~= old(ctx).errors@); }
            }
            if let Literal::Bool(b) = lit {
                if *b {
                    *true_covered = true;
                } else {
                    *false_covered = true;
                }
            }
            false
        },
        Pattern::Or(pats, _) => {
            let mut any_catchall = false;
            let mut i: usize = 0;
            while i < pats.len()
                invariant
                    i <= pats@.len(),
                    ctx_step(ctx, old(ctx)),
                    env.frames().len() == old(env).frames().len(),
                    env.frames().drop_last() == old(env).frames().drop_last(),
                    *old(true_covered) ==> *true_covered,
                    *old(false_covered) ==> *false_covered,
                    *pattern matches Pattern::Or(p, _) && p == pats,
                    covered@.len() >= old(covered)@.len(),
                    covered@.subrange(0, old(covered)@.len() as int) == old(covered)@,
                decreases pats@.len() - i,
            {
                proof {
                    assert(decreases_to!(pattern => pats@[i as int]));
                }
                if check_pattern(&pats[i], subject_ty, ctx, env, covered, true_covered, false_covered) {
                    any_catchall = true;
                }
                i = i + 1;
            }
            any_catchall
        },
    }
}

/// Whether `name` is in the list.
fn contains_text(v: &Vec<String>, name: &String) -> (r: bool)
    ensures
        r == exists|i: int| 0 <= i < v@.len() && #[trigger] v@[i]@ == name@,
{
    super::convert::contains_name(v, name)
}

/// Whether a list of covered variant names holds `v`.
pub open spec fn covers(covered: Seq<String>, v: Seq<char>) -> bool {
    exists|j: int| 0 <= j < covered.len() && #[trigger] covered[j]@ == v
}

/// What a match on an enum with variants `vs` reports: nothing when every
/// variant is covered, else one error that lists exactly the variants not
/// covered.
/// The names of the variants before `upto` that `covered` leaves out, in
/// declaration order.
pub open spec fn uncovered(vs: Seq<(String, Vec<Ty>)>, covered: Seq<String>, upto: int) -> Seq<Seq<char>>
    decreases upto,
{
    if upto <= 0 {
        Seq::empty()
    } else {
        let prev = uncovered(vs, covered, upto - 1);
        if covers(covered, vs[upto - 1].0@) { prev } else { prev.push(vs[upto - 1].0@) }
    }
}

pub open spec fn enum_coverage(
    vs: Seq<(String, Vec<Ty>)>,
    covered: Seq<String>,
    match_span: Span,
    new_errs: Seq<TypeError>,
    old_errs: Seq<TypeError>,
) -> bool {
    if forall|i: int| 0 <= i < vs.len() ==> covers(covered, #[trigger] vs[i].0@) {
        new_errs == old_errs
    } else {
        &&& new_errs.len() == old_errs.len() + 1
        &&& new_errs.drop_last() == old_errs
        &&& new_errs.last() matches TypeError::NonExhaustiveMatch { missing, span }
        &&& span == match_span
        &&& forall|k: int| 0 <= k < missing@.len() ==> exists|i: int| 0 <= i < vs.len()
            && #[trigger] missing@[k]@ == vs[i].0@ && !covers(covered, vs[i].0@)
        &&& forall|i: int| 0 <= i < vs.len() && !covers(covered, #[trigger] vs[i].0@)
            ==> exists|k: int| 0 <= k < missing@.len() && missing@[k]@ == vs[i].0@
        &&& missing@.len() == uncovered(vs, covered, vs.len() as int).len()
        &&& forall|k: int| 0 <= k < missing@.len() ==> #[trigger] missing@[k]@ == uncovered(vs, covered, vs.len() as int)[k]
    }
}

/// Reports a match without a catch-all arm that misses values of its
/// subject: unlisted variants of an enum, `true`/`false` of a `bool`, and
/// any other type (which cannot be enumerated) entirely. Nothing is reported
/// for a subject already in error.
#[verifier::loop_isolation(false)]
#[verifier::rlimit(50)]
#[verifier::spinoff_prover]
pub fn exhaustiveness_check(
    subject_ty: &Ty,
    match_span: Span,
    has_catchall: bool,
    covered: &Vec<String>,
    true_covered: bool,
    false_covered: bool,
    ctx: &mut InferCtx,
)
    ensures
        tables_same(final(ctx), old(ctx)),
        final(ctx).type_map@ == old(ctx).type_map@,
        extends(final(ctx).errors@, old(ctx).errors@),
        final(ctx).errors@.len() <= old(ctx).errors@.len() + 1,
        (has_catchall || *subject_ty is Error) ==> final(ctx).errors@ == old(ctx).errors@,
        (!has_catchall && *subject_ty is Bool) ==> (final(ctx).errors@ == old(ctx).errors@ <==> (true_covered && false_covered)),
        (!has_catchall && *subject_ty is Bool && !(true_covered && false_covered)) ==> (
            final(ctx).errors@.last() matches TypeError::NonExhaustiveMatch { missing, span } && span == match_span
            && missing@.len() == (if true_covered || false_covered { 1int } else { 2int })
            && (!true_covered ==> missing@[0]@ == "true"@)
            && (!false_covered ==> missing@[missing@.len() - 1]@ == "false"@)),
        !has_catchall ==> (*subject_ty matches Ty::Named(n) ==> if has_key(old(ctx).enum_defs@, n@) {
            enum_coverage(old(ctx).enum_defs@[first_key_index(old(ctx).enum_defs@, n@)].1.variants@, covered@,
                match_span, final(ctx).errors@, old(ctx).errors@)
        } else {
            &&& final(ctx).errors@.len() == old(ctx).errors@.len() + 1
            &&& final(ctx).errors@.last() matches TypeError::NonExhaustiveMatch { missing, span }
            &&& span == match_span && missing@.len() == 1 && missing@[0]@ == "_"@
        }),
        (!has_catchall && !(*subject_ty is Bool || *subject_ty is Error || *subject_ty is Named)) ==>
            (final(ctx).errors@.len() == old(ctx).errors@.len() + 1
                && (final(ctx).errors@.last() matches TypeError::NonExhaustiveMatch { missing, span }
                    && span == match_span && missing@.len() == 1 && missing@[0]@ == "_"@)),
{
    if has_catchall {
        return;
    }
    match subject_ty {
        Ty::Bool => {
            let mut missing: Vec<String> = Vec::new();
            if !true_covered {
                missing.push(owned("true"));
            }
            if !false_covered {
                missing.push(owned("false"));
            }
            if missing.len() > 0 {
                ctx.error(TypeError::NonExhaustiveMatch { missing, span: match_span });
            }
        },
        Ty::Error => {},
        Ty::Named(name) => {
            match find_key(&ctx.enum_defs, name) {
                Some(e) => {
                    let mut missing: Vec<String> = Vec::new();
                    let n = ctx.enum_defs[e].1.variants.len();
                    let mut i: usize = 0;
                    let ghost vs = ctx.enum_defs@[e as int].1.variants@;
                    while i < n
                        invariant
                            e < ctx.enum_defs@.len(),
                            vs == ctx.enum_defs@[e as int].1.variants@,
                            n == vs.len(),
                            i <= n,
                            forall|k: int| 0 <= k < missing@.len() ==> exists|j: int| 0 <= j < i
                                && #[trigger] missing@[k]@ == vs[j].0@ && !covers(covered@, vs[j].0@),
                            forall|j: int| 0 <= j < i && !covers(covered@, #[trigger] vs[j].0@)
                                ==> exists|k: int| 0 <= k < missing@.len() && missing@[k]@ == vs[j].0@,
                            (missing@.len() == 0) == (forall|j: int| 0 <= j < i ==> covers(covered@, #[trigger] vs[j].0@)),
                            missing@.len() == uncovered(vs, covered@, i as int).len(),
                            forall|k: int| 0 <= k < missing@.len() ==> #[trigger] missing@[k]@ == uncovered(vs, covered@, i as int)[k],
                        decreases n - i,
                    {
                        let v = &ctx.enum_defs[e].1.variants[i].0;
                        if !contains_text(covered, v) {
                            let ghost before = missing@;
                            missing.push(v.clone());
                            proof {
                                assert(missing@[before.len() as int]@ == vs[i as int].0@);
                                assert forall|k: int| 0 <= k < missing@.len() implies exists|j: int| 0 <= j < i + 1
                                    && #[trigger] missing@[k]@ == vs[j].0@ && !covers(covered@, vs[j].0@) by {
                                    if k < before.len() {
                                        assert(missing@[k] == before[k]);
                                    }
                                }
                                assert forall|j: int| 0 <= j < i + 1 && !covers(covered@, #[trigger] vs[j].0@)
                                    implies exists|k: int| 0 <= k < missing@.len() && missing@[k]@ == vs[j].0@ by {
                                    if j < i {
                                        let k = choose|k: int| 0 <= k < before.len() && before[k]@ == vs[j].0@;
                                        assert(missing@[k] == before[k]);
                                    }
                                }
                            }
                        } else {
                            proof {
                                assert(covers(covered@, vs[i as int].0@));
                            }
                        }
                        i = i + 1;
                    }
                    if missing.len() > 0 {
                        ctx.error(TypeError::NonExhaustiveMatch { missing, span: match_span });
                        proof {
                            assert(ctx.errors@.drop_last() =~= old(ctx).errors@);
                            assert(!(forall|j: int| 0 <= j < vs.len() ==> covers(covered@, #[trigger] vs[j].0@)));
                            assert(enum_coverage(vs, covered@, match_span, ctx.errors@, old(ctx).errors@));
                        }
                    } else {
                        assert(enum_coverage(vs, covered@, match_span, ctx.errors@, old(ctx).errors@));
                    }
                },
                None => {
                    let mut missing: Vec<String> = Vec::new();
                    missing.push(owned("_"));
                    ctx.error(TypeError::NonExhaustiveMatch { missing, span: match_span });
                },
            }
        },
        _ => {
            // An open type (`i32`, `f64`, `char`, ...) cannot be enumerated.
            let mut missing: Vec<String> = Vec::new();
            missing.push(owned("_"));
            ctx.error(TypeError::NonExhaustiveMatch { missing, span: match_span });
        },
    }
}

/// Whether an arm before the `i`-th is an unguarded `_`.
pub open spec fn wildcard_before(arms: Seq<MatchArm>, i: int) -> bool {
    exists|j: int| 0 <= j < i && (#[trigger] arms[j]).guard is None && arms[j].pattern is Wildcard
}

/// The subject's type needs no inference and names no type, so a bare
/// name pattern cannot be a variant: it binds, and matches everything.
pub open spec fn subject_plain(env: &Env, subject: Expr) -> bool {
    known_ty(env, subject) matches Some(t) && !(t is Named)
}

/// Some arm before `i` matches everything: unguarded, with a `_` pattern or
/// (when `plain`) a bare name.
pub open spec fn catch_all_before(arms: Seq<MatchArm>, i: int, plain: bool) -> bool {
    exists|j: int| 0 <= j < i && (#[trigger] arms[j]).guard is None
        && (arms[j].pattern is Wildcard || (plain && arms[j].pattern is Name))
}

/// Whether the errors hold an unreachable-arm report for the arm at `span`.
pub open spec fn reported_unreachable(errs: Seq<TypeError>, span: Span) -> bool {
    exists|k: int| 0 <= k < errs.len() && (#[trigger] errs[k] matches TypeError::UnreachableArm { span: s, .. } && s == span)
}

/// A report stays among errors that only accumulate.
pub proof fn lemma_reported_kept(new: Seq<TypeError>, old: Seq<TypeError>, span: Span)
    requires
        extends(new, old),
        reported_unreachable(old, span),
    ensures
        reported_unreachable(new, span),
{
    let k = choose|k: int| 0 <= k < old.len() && (#[trigger] old[k] matches TypeError::UnreachableArm { span: s, .. } && s == span);
    assert(new[k] == old[k]);
}

/// The type of a literal expression (an integer one only within `i32`).
pub open spec fn lit_ty(e: Expr) -> Option<TyV> {
    match e {
        Expr::Literal(lit, _) => if lit matches Literal::Integer(n) && n > 2147483647 { None } else { Some(literal_ty(lit)) },
        _ => None,
    }
}

/// Arm `j`'s body is a literal of another type than the first arm's literal body.
pub open spec fn arm_lit_mismatch(arms: Seq<MatchArm>, j: int) -> bool {
    &&& 1 <= j < arms.len()
    &&& lit_ty(arms[0].body) matches Some(a) && (lit_ty(arms[j].body) matches Some(b) && a != b)
}

/// Arm `j`'s guard is a literal that is not a `bool`.
pub open spec fn guard_not_bool(arms: Seq<MatchArm>, j: int) -> bool {
    &&& 0 <= j < arms.len()
    &&& arms[j].guard matches Some(g) && (lit_ty(*g) matches Some(t) && t != TyV::Bool)
}

/// An arm that covers nothing unconditionally: guarded, or with a literal or
/// constructor pattern.
pub open spec fn never_catch_all(arm: MatchArm) -> bool {
    arm.guard is Some || arm.pattern is Literal || arm.pattern is Constructor
}

/// Whether the errors hold an arm-type mismatch for the arm at `span`.
pub open spec fn arm_mismatch_reported(errs: Seq<TypeError>, span: Span) -> bool {
    exists|k: int| 0 <= k < errs.len() && #[trigger] errs[k] is MatchArmMismatch && errs[k]->MatchArmMismatch_arm_span == span
}

/// Whether the errors hold a non-`bool` condition report at `span`.
pub open spec fn nonbool_reported(errs: Seq<TypeError>, span: Span) -> bool {
    exists|k: int| 0 <= k < errs.len() && #[trigger] errs[k] is NonBoolCondition && errs[k]->NonBoolCondition_span == span
}

/// Reports stay among errors that only accumulate.
pub proof fn lemma_arm_reports_kept(later: Seq<TypeError>, earlier: Seq<TypeError>)
    requires
        extends(later, earlier),
    ensures
        forall|span: Span| arm_mismatch_reported(earlier, span) ==> #[trigger] arm_mismatch_reported(later, span),
        forall|span: Span| nonbool_reported(earlier, span) ==> #[trigger] nonbool_reported(later, span),
{
    assert forall|k: int| 0 <= k < earlier.len() implies later[k] == #[trigger] earlier[k] by {}
}

/// Infers a `match`: the subject, then each arm in a scope of its own (its
/// pattern, a `bool` guard, its body). Every arm must have the first arm's
/// type; arms after a catch-all are unreachable; guarded arms cover nothing.
/// The match's type is the first arm's (`Ty::Error` without arms).
#[verifier::loop_isolation(false)]
pub fn infer_match(expr: &Expr, ctx: &mut InferCtx, env: &mut Env) -> (r: Ty)
    requires
        old(env).frames().len() > 0,
    ensures
        ctx_step(final(ctx), old(ctx)),
        final(env).frames() == old(env).frames(),
        (*expr matches Expr::Match { arms, .. } && arms@.len() == 0) ==> r is Error,
        *expr matches Expr::Match { arms, .. } ==> forall|i: int| 0 <= i < arms@.len() && wildcard_before(arms@, i)
            ==> reported_unreachable(final(ctx).errors@, (#[trigger] arms@[i]).span),
        *expr matches Expr::Match { subject, arms, .. } ==> forall|i: int| 0 <= i < arms@.len()
            && catch_all_before(arms@, i, subject_plain(old(env), *subject))
            ==> reported_unreachable(final(ctx).errors@, (#[trigger] arms@[i]).span),
        *expr matches Expr::Match { arms, .. } ==> (arms@.len() > 0 ==> (lit_ty(arms@[0].body) matches Some(t) ==> r@ == t)),
        *expr matches Expr::Match { arms, .. } ==> forall|j: int| #[trigger] arm_lit_mismatch(arms@, j)
            ==> arm_mismatch_reported(final(ctx).errors@, arms@[j].span),
        *expr matches Expr::Match { arms, .. } ==> forall|j: int| #[trigger] guard_not_bool(arms@, j)
            ==> nonbool_reported(final(ctx).errors@, arms@[j].guard->0.spec_span()),
        *expr matches Expr::Match { subject, arms, span } ==> ((forall|j: int| 0 <= j < arms@.len() ==> never_catch_all(#[trigger] arms@[j]))
            ==> (known_ty(old(env), *subject) matches Some(t) ==> (!(t is Bool || t is Error || t is Named) ==>
                (final(ctx).errors@.last() matches TypeError::NonExhaustiveMatch { missing, span: s }
                    && s == span && missing@.len() == 1 && missing@[0]@ == "_"@)))),
    decreases expr, 1nat,
{
    let (subject, arms, span) = match expr {
        Expr::Match { subject, arms, span } => (subject, arms, *span),
        _ => {
            return Ty::Error;
        },
    };
    let subject_ty = infer_expr(subject, ctx, env);
    let ghost plain = subject_plain(old(env), **subject);
    let mut first_arm_ty: Option<Ty> = None;
    // `Some` once a catch-all arm has been seen: the span of the first one.
    let mut catchall_span: Option<Span> = None;
    let mut covered: Vec<String> = Vec::new();
    let mut true_covered = false;
    let mut false_covered = false;

    let mut i: usize = 0;
    while i < arms.len()
        invariant
            i <= arms@.len(),
            ctx_step(ctx, old(ctx)),
            env.frames() == old(env).frames(),
            *expr matches Expr::Match { arms: a, .. } && a == arms,
            i == 0 ==> first_arm_ty is None,
            catch_all_before(arms@, i as int, plain) ==> catchall_span is Some,
            forall|j: int| 0 <= j < i && catch_all_before(arms@, j, plain) ==> reported_unreachable(ctx.errors@, (#[trigger] arms@[j]).span),
            plain == subject_plain(old(env), **subject),
            i > 0 ==> (first_arm_ty is Some && (lit_ty(arms@[0].body) matches Some(t) ==> first_arm_ty->0@ == t)),
            forall|j: int| 0 <= j < i && #[trigger] arm_lit_mismatch(arms@, j) ==> arm_mismatch_reported(ctx.errors@, arms@[j].span),
            forall|j: int| 0 <= j < i && #[trigger] guard_not_bool(arms@, j) ==> nonbool_reported(ctx.errors@, arms@[j].guard->0.spec_span()),
            (forall|j: int| 0 <= j < i ==> never_catch_all(#[trigger] arms@[j])) ==> catchall_span is None,
            known_ty(old(env), **subject) matches Some(t) ==> subject_ty@ == t,
        decreases arms@.len() - i,
    {
        let arm = &arms[i];
        let ghost errs0 = ctx.errors@;
        proof {
            assert(decreases_to!(expr => arms@[i as int]));
            assert(decreases_to!(arms@[i as int] => arms@[i as int].body));
        }
        if let Some(cs) = catchall_span {
            ctx.error(TypeError::UnreachableArm { span: arm.span, catch_all_span: cs });
            assert(ctx.errors@[ctx.errors@.len() - 1] matches TypeError::UnreachableArm { span: s, .. } && s == arms@[i as int].span);
        }
        let ghost errs1 = ctx.errors@;
        assert(catch_all_before(arms@, i as int, plain) ==> reported_unreachable(errs1, arms@[i as int].span));
        env.push_scope();
        let mut arm_is_catchall = match &arm.guard {
            Some(_) => {
                let mut tmp_covered: Vec<String> = Vec::new();
                let mut tmp_true = false;
                let mut tmp_false = false;
                check_pattern(&arm.pattern, &subject_ty, ctx, env, &mut tmp_covered, &mut tmp_true, &mut tmp_false)
            },
            None => check_pattern(&arm.pattern, &subject_ty, ctx, env, &mut covered, &mut true_covered, &mut false_covered),
        };
        if let Some(guard) = &arm.guard {
            proof {
                assert(decreases_to!(arms@[i as int] => arms@[i as int].guard));
            }
            let guard_ty = infer_expr(guard, ctx, env);
            if !matches!(guard_ty, Ty::Bool | Ty::Error) {
                let ghost before = ctx.errors@;
                ctx.error(TypeError::NonBoolCondition { found: guard_ty, span: guard.span() });
                proof {
                    assert(ctx.errors@[before.len() as int] is NonBoolCondition);
                    assert(ctx.errors@[before.len() as int]->NonBoolCondition_span == guard.spec_span());
                    assert(nonbool_reported(ctx.errors@, guard.spec_span()));
                }
            }
            proof {
                if guard_not_bool(arms@, i as int) {
                    reveal_with_fuel(ty_view, 2);
                    assert(nonbool_reported(ctx.errors@, guard.spec_span()));
                }
            }
            arm_is_catchall = false;
        }
        let ghost errs2 = ctx.errors@;
        let arm_body_ty = infer_expr(&arm.body, ctx, env);
        proof { lemma_record_keeps(ctx.type_map@, arm.span, arm_body_ty); }
        ctx.record(arm.span, arm_body_ty.dup());
        env.pop_scope();
        proof {
            assert(env.frames() =~= old(env).frames());
        }
        match &first_arm_ty {
            None => {
                first_arm_ty = Some(arm_body_ty.dup());
            },
            Some(first) => {
                if !first.same(&arm_body_ty) && !first.is_error() && !arm_body_ty.is_error() {
                    let ghost before = ctx.errors@;
                    ctx.error(TypeError::MatchArmMismatch { first_ty: first.dup(), found_ty: arm_body_ty, arm_span: arm.span });
                    proof {
                        assert(ctx.errors@[before.len() as int] is MatchArmMismatch);
                    }
                }
            },
        }
        if arm_is_catchall && catchall_span.is_none() {
            catchall_span = Some(arm.span);
        }
        proof {
            lemma_arm_reports_kept(ctx.errors@, errs0);
            lemma_arm_reports_kept(ctx.errors@, errs2);
            assert forall|j: int| 0 <= j < i + 1 && catch_all_before(arms@, j, plain)
                implies reported_unreachable(ctx.errors@, (#[trigger] arms@[j]).span) by {
                if j < i {
                    lemma_reported_kept(ctx.errors@, errs0, arms@[j].span);
                } else {
                    lemma_reported_kept(ctx.errors@, errs1, arms@[j].span);
                }
            }
            if catch_all_before(arms@, i + 1, plain) && !catch_all_before(arms@, i as int, plain) {
                assert(arms@[i as int].guard is None
                    && (arms@[i as int].pattern is Wildcard || (plain && arms@[i as int].pattern is Name)));
            }
        }
        i = i + 1;
    }

    proof {
        assert forall|j: int| 0 <= j < arms@.len() && wildcard_before(arms@, j)
            implies reported_unreachable(ctx.errors@, (#[trigger] arms@[j]).span) by {
            let w = choose|w: int| 0 <= w < j && (#[trigger] arms@[w]).guard is None && arms@[w].pattern is Wildcard;
            assert(catch_all_before(arms@, j, plain));
        }
    }
    let ghost errs3 = ctx.errors@;
    exhaustiveness_check(&subject_ty, span, catchall_span.is_some(), &covered, true_covered, false_covered, ctx);
    proof {
        lemma_arm_reports_kept(ctx.errors@, errs3);
    }
    match first_arm_ty {
        Some(t) => t,
        None => Ty::Error,
    }
}

} // verus!
