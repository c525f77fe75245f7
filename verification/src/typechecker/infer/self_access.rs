//! The access mode of a bare `self` receiver, inferred from the method body.
use vstd::prelude::*;
use crate::ast::{Block, Expr, Stmt, UnaryOp};
use crate::lexer::Span;
use crate::text::text_is;
use super::super::env::InferCtx;
use super::super::error::TypeError;
use super::super::ty::{ty_view, Ty, TyV};
use super::{extends, tables_same};

verus! {

/// The first use of `self` of each kind found in a method body.
pub struct SelfUsageScan {
    /// `self` moved out: returned, bound, assigned, or passed as an argument.
    pub consuming: Option<Span>,
    /// `self` mutated: a field assigned, or `&mut self`.
    pub mutating: Option<Span>,
    /// `self` read: a method receiver, or any other use.
    pub non_consuming: Option<Span>,
}

/// A scan only fills empty slots: the first use of each kind stays.
pub open spec fn scan_grows(new: SelfUsageScan, old: SelfUsageScan) -> bool {
    &&& (old.consuming is Some ==> new.consuming == old.consuming)
    &&& (old.mutating is Some ==> new.mutating == old.mutating)
    &&& (old.non_consuming is Some ==> new.non_consuming == old.non_consuming)
}

/// The receiver type a scan implies, when it is unambiguous: consuming uses
/// take `Type` by value, mutating ones `&mut Type`, the rest `&Type`.
pub open spec fn self_mode(scan: SelfUsageScan, ty_name: Seq<char>) -> TyV {
    if scan.consuming is Some {
        TyV::Named(ty_name)
    } else if scan.mutating is Some {
        TyV::Ref { mutable: true, region: None, inner: Box::new(TyV::Named(ty_name)) }
    } else {
        TyV::Ref { mutable: false, region: None, inner: Box::new(TyV::Named(ty_name)) }
    }
}

/// Whether a scan finds `self` both consumed and borrowed (read or mutated).
pub open spec fn self_ambiguous(scan: SelfUsageScan) -> bool {
    scan.consuming is Some && (scan.non_consuming is Some || scan.mutating is Some)
}

pub fn is_self_ident(expr: &Expr) -> (r: bool)
    ensures
        r == (*expr matches Expr::Ident(n, _) && n@ == "self"@),
{
    match expr {
        Expr::Ident(n, _) => text_is(n, "self"),
        _ => false,
    }
}

pub fn set_consuming(span: Span, scan: &mut SelfUsageScan)
    ensures
        scan_grows(*final(scan), *old(scan)),
        final(scan).consuming is Some,
        final(scan).mutating == old(scan).mutating,
        final(scan).non_consuming == old(scan).non_consuming,
        old(scan).consuming is None ==> final(scan).consuming == Some(span),
{
    if scan.consuming.is_none() {
        scan.consuming = Some(span);
    }
}

pub fn set_mutating(span: Span, scan: &mut SelfUsageScan)
    ensures
        scan_grows(*final(scan), *old(scan)),
        final(scan).mutating is Some,
        final(scan).consuming == old(scan).consuming,
        final(scan).non_consuming == old(scan).non_consuming,
        old(scan).mutating is None ==> final(scan).mutating == Some(span),
{
    if scan.mutating.is_none() {
        scan.mutating = Some(span);
    }
}

pub fn set_non_consuming(span: Span, scan: &mut SelfUsageScan)
    ensures
        scan_grows(*final(scan), *old(scan)),
        final(scan).non_consuming is Some,
        final(scan).consuming == old(scan).consuming,
        final(scan).mutating == old(scan).mutating,
        old(scan).non_consuming is None ==> final(scan).non_consuming == Some(span),
{
    if scan.non_consuming.is_none() {
        scan.non_consuming = Some(span);
    }
}

/// `self` in a moving position is consumed; elsewhere it is scanned as usual.
fn scan_moved(expr: &Expr, scan: &mut SelfUsageScan)
    ensures
        scan_grows(*final(scan), *old(scan)),
        is_self_ident_spec(*expr) ==> final(scan).consuming is Some,
        is_self_ident_spec(*expr) ==> (final(scan).mutating == old(scan).mutating
            && final(scan).non_consuming == old(scan).non_consuming),
    decreases expr, 1nat,
{
    if is_self_ident(expr) {
        set_consuming(expr.span(), scan);
    } else {
        scan_expr(expr, scan);
    }
}

pub open spec fn is_self_ident_spec(expr: Expr) -> bool {
    expr matches Expr::Ident(n, _) && n@ == "self"@
}

/// A statement `self.field = ...` or `self.field op= ...`: a write through `self`.
pub open spec fn writes_self_field(stmt: Stmt) -> bool {
    stmt matches Stmt::Assign { target, .. } && (*target matches Expr::Field { object, .. } && is_self_ident_spec(*object))
}

/// Some statement of the block writes a field of `self`.
pub open spec fn block_writes_self(block: Block) -> bool {
    exists|j: int| 0 <= j < block.stmts@.len() && writes_self_field(#[trigger] block.stmts@[j])
}

/// Some statement of the block binds `self` itself by value: `let x = self;`.
pub open spec fn block_binds_self(block: Block) -> bool {
    exists|j: int| 0 <= j < block.stmts@.len()
        && (#[trigger] block.stmts@[j] matches Stmt::Let { init, .. } && is_self_ident_spec(*init))
}

/// Classifies every use of `self` in a block.
#[verifier::loop_isolation(false)]
pub fn scan_block(block: &Block, scan: &mut SelfUsageScan)
    ensures
        scan_grows(*final(scan), *old(scan)),
        (block.tail matches Some(t) && is_self_ident_spec(*t)) ==> final(scan).consuming is Some,
        (block.stmts@.len() == 0 && block.tail is None) ==> *final(scan) == *old(scan),
        (block.stmts@.len() == 0 && (block.tail matches Some(t) && is_self_ident_spec(*t)))
            ==> (final(scan).mutating == old(scan).mutating && final(scan).non_consuming == old(scan).non_consuming),
        block_writes_self(*block) ==> final(scan).mutating is Some,
        block_binds_self(*block) ==> final(scan).consuming is Some,
    decreases block, 2nat,
{
    let mut i: usize = 0;
    while i < block.stmts.len()
        invariant
            i <= block.stmts@.len(),
            scan_grows(*scan, *old(scan)),
            block.stmts@.len() == 0 ==> *scan == *old(scan),
            (exists|j: int| 0 <= j < i && writes_self_field(#[trigger] block.stmts@[j])) ==> scan.mutating is Some,
            (exists|j: int| 0 <= j < i && (#[trigger] block.stmts@[j] matches Stmt::Let { init, .. }
                && is_self_ident_spec(*init))) ==> scan.consuming is Some,
        decreases block.stmts@.len() - i,
    {
        proof {
            assert(decreases_to!(block => block.stmts@[i as int]));
        }
        scan_stmt(&block.stmts[i], scan);
        i = i + 1;
    }
    if let Some(tail) = &block.tail {
        // `self` as the block's value is returned by value: consumed.
        scan_moved(tail, scan);
    }
}

/// Classifies every use of `self` in a statement.
pub fn scan_stmt(stmt: &Stmt, scan: &mut SelfUsageScan)
    ensures
        scan_grows(*final(scan), *old(scan)),
        *stmt matches Stmt::Assign { target, .. } ==> (*target matches Expr::Field { object, .. }
            ==> (is_self_ident_spec(*object) ==> final(scan).mutating is Some)),
        *stmt matches Stmt::Let { init, .. } ==> (is_self_ident_spec(*init) ==> final(scan).consuming is Some),
        *stmt matches Stmt::Return { value: Some(v), .. } ==> (is_self_ident_spec(*v) ==> final(scan).consuming is Some),
    decreases stmt, 2nat,
{
    match stmt {
        Stmt::Let { init, .. } => scan_moved(init, scan),
        Stmt::Const { init, .. } => scan_expr(init, scan),
        Stmt::Return { value: Some(v), .. } => scan_moved(v, scan),
        Stmt::Return { value: None, .. } | Stmt::Continue { .. } | Stmt::Break { value: None, .. } => {},
        Stmt::Break { value: Some(v), .. } => scan_expr(v, scan),
        Stmt::Assign { target, value, .. } => {
            // `self.field = x` mutates `self`.
            match &**target {
                Expr::Field { object, .. } => {
                    if is_self_ident(object) {
                        set_mutating(object.span(), scan);
                    } else {
                        scan_expr(object, scan);
                    }
                },
                _ => scan_expr(target, scan),
            }
            scan_moved(value, scan);
        },
        Stmt::Expr { expr, .. } => scan_expr(expr, scan),
    }
}

/// Classifies every use of `self` in an expression: a method receiver
/// reads it, `&mut self` mutates it, an argument consumes it, and a bare
/// `self` anywhere else reads it.
#[verifier::loop_isolation(false)]
pub fn scan_expr(expr: &Expr, scan: &mut SelfUsageScan)
    ensures
        scan_grows(*final(scan), *old(scan)),
        is_self_ident_spec(*expr) ==> final(scan).non_consuming is Some,
    decreases expr, 0nat,
{
    match expr {
        Expr::Ident(n, span) => {
            if text_is(n, "self") {
                set_non_consuming(*span, scan);
            }
        },
        Expr::Literal(..) => {},
        Expr::Unary { op, expr: inner, .. } => {
            if let UnaryOp::BorrowMut = op {
                if is_self_ident(inner) {
                    set_mutating(inner.span(), scan);
                    return;
                }
            }
            scan_expr(inner, scan);
        },
        Expr::Binary { left, right, .. } => {
            scan_expr(left, scan);
            scan_expr(right, scan);
        },
        Expr::Call { callee, args, .. } => {
            scan_expr(callee, scan);
            let mut i: usize = 0;
            while i < args.len()
                invariant
                    i <= args@.len(),
                    scan_grows(*scan, *old(scan)),
                    *expr matches Expr::Call { args: a, .. } && a == args,
                decreases args@.len() - i,
            {
                proof {
                    assert(decreases_to!(expr => args@[i as int]));
                }
                scan_moved(&args[i], scan);
                i = i + 1;
            }
        },
        Expr::MethodCall { object, args, .. } => {
            // The receiver position reads `self` (consuming methods say `move self`).
            if is_self_ident(object) {
                set_non_consuming(object.span(), scan);
            } else {
                scan_expr(object, scan);
            }
            let mut i: usize = 0;
            while i < args.len()
                invariant
                    i <= args@.len(),
                    scan_grows(*scan, *old(scan)),
                    *expr matches Expr::MethodCall { args: a, .. } && a == args,
                decreases args@.len() - i,
            {
                proof {
                    assert(decreases_to!(expr => args@[i as int]));
                }
                scan_moved(&args[i], scan);
                i = i + 1;
            }
        },
        Expr::Field { object, .. } => scan_expr(object, scan),
        Expr::Cast { expr: inner, .. } => scan_expr(inner, scan),
        Expr::Propagate { expr: inner, .. } => scan_expr(inner, scan),
        Expr::Block(b) => scan_block(b, scan),
        Expr::If { condition, then_block, else_branch, .. } => {
            scan_expr(condition, scan);
            scan_block(then_block, scan);
            if let Some(e) = else_branch {
                scan_expr(e, scan);
            }
        },
        Expr::While { condition, body, .. } => {
            scan_expr(condition, scan);
            scan_block(body, scan);
        },
        Expr::Loop { body, .. } => scan_block(body, scan),
        Expr::For { iterable, body, .. } => {
            scan_expr(iterable, scan);
            scan_block(body, scan);
        },
        Expr::Match { subject, arms, .. } => {
            scan_expr(subject, scan);
            let mut i: usize = 0;
            while i < arms.len()
                invariant
                    i <= arms@.len(),
                    scan_grows(*scan, *old(scan)),
                    *expr matches Expr::Match { arms: a, .. } && a == arms,
                decreases arms@.len() - i,
            {
                proof {
                    assert(decreases_to!(expr => arms@[i as int]));
                    assert(decreases_to!(arms@[i as int] => arms@[i as int].body));
                    assert(decreases_to!(arms@[i as int] => arms@[i as int].guard));
                }
                scan_expr(&arms[i].body, scan);
                if let Some(g) = &arms[i].guard {
                    scan_expr(g, scan);
                }
                i = i + 1;
            }
        },
        Expr::StructLit { fields, .. } => {
            // A field value moves into the new struct, like an argument.
            let mut i: usize = 0;
            while i < fields.len()
                invariant
                    i <= fields@.len(),
                    scan_grows(*scan, *old(scan)),
                    *expr matches Expr::StructLit { fields: f, .. } && f == fields,
                decreases fields@.len() - i,
            {
                proof {
                    assert(decreases_to!(expr => fields@[i as int].value));
                }
                scan_moved(&fields[i].value, scan);
                i = i + 1;
            }
        },
    }
}

/// The receiver type for a scan: an ambiguous one (consumed and borrowed in
/// one body) is reported and yields `Ty::Error`.
pub fn self_mode_of_scan(scan: &SelfUsageScan, ty_name: &String, fn_name: &String, ctx: &mut InferCtx) -> (r: Ty)
    ensures
        tables_same(final(ctx), old(ctx)),
        final(ctx).type_map@ == old(ctx).type_map@,
        self_ambiguous(*scan) ==> (r is Error && final(ctx).errors@.len() == old(ctx).errors@.len() + 1
            && final(ctx).errors@.drop_last() == old(ctx).errors@
            && (final(ctx).errors@.last() matches TypeError::SelfAccessAmbiguity { fn_name: f, consuming_span, other_span }
                && f@ == fn_name@ && Some(consuming_span) == scan.consuming
                && Some(other_span) == (if scan.non_consuming is Some { scan.non_consuming } else { scan.mutating }))),
        !self_ambiguous(*scan) ==> (r@ == self_mode(*scan, ty_name@) && final(ctx).errors@ == old(ctx).errors@),
        extends(final(ctx).errors@, old(ctx).errors@),
{
    let borrowing = match scan.non_consuming {
        Some(s) => Some(s),
        None => scan.mutating,
    };
    if let (Some(c), Some(other)) = (scan.consuming, borrowing) {
        ctx.error(TypeError::SelfAccessAmbiguity { fn_name: fn_name.clone(), consuming_span: c, other_span: other });
        proof {
            assert(ctx.errors@.drop_last() =~= old(ctx).errors@);
        }
        return Ty::Error;
    }
    let inner = Ty::Named(ty_name.clone());
    proof {
        reveal_with_fuel(ty_view, 2);
    }
    if scan.consuming.is_some() {
        inner
    } else if scan.mutating.is_some() {
        Ty::Ref { mutable: true, region: None, inner: Box::new(inner) }
    } else {
        Ty::Ref { mutable: false, region: None, inner: Box::new(inner) }
    }
}

/// The access mode of a bare `self` receiver of `ty_name`, from a scan of
/// the method body.
pub fn infer_self_access_mode(ty_name: &String, body: &Block, fn_name: &String, ctx: &mut InferCtx) -> (r: Ty)
    ensures
        tables_same(final(ctx), old(ctx)),
        final(ctx).type_map@ == old(ctx).type_map@,
        extends(final(ctx).errors@, old(ctx).errors@),
        r is Error ==> (final(ctx).errors@.len() == old(ctx).errors@.len() + 1
            && final(ctx).errors@.drop_last() == old(ctx).errors@
            && (final(ctx).errors@.last() matches TypeError::SelfAccessAmbiguity { fn_name: f, .. } && f@ == fn_name@)),
        block_writes_self(*body) ==> (r is Error
            || r@ == TyV::Ref { mutable: true, region: None, inner: Box::new(TyV::Named(ty_name@)) }),
        (block_writes_self(*body) && (body.tail matches Some(t) && is_self_ident_spec(*t))) ==> r is Error,
        !(r is Error) ==> (final(ctx).errors@ == old(ctx).errors@ && (r@ == TyV::Named(ty_name@)
            || r@ == TyV::Ref { mutable: true, region: None, inner: Box::new(TyV::Named(ty_name@)) }
            || r@ == TyV::Ref { mutable: false, region: None, inner: Box::new(TyV::Named(ty_name@)) })),
        (body.tail matches Some(t) && is_self_ident_spec(*t)) ==> (r is Error || r@ == TyV::Named(ty_name@)),
        (body.stmts@.len() == 0 && body.tail is None) ==> (final(ctx).errors@ == old(ctx).errors@
            && r@ == TyV::Ref { mutable: false, region: None, inner: Box::new(TyV::Named(ty_name@)) }),
        (body.stmts@.len() == 0 && (body.tail matches Some(t) && is_self_ident_spec(*t)))
            ==> (final(ctx).errors@ == old(ctx).errors@ && r@ == TyV::Named(ty_name@)),
        block_binds_self(*body) ==> (r@ == TyV::Named(ty_name@) || r is Error),
        block_binds_self(*body) ==> !(r is Ref),
{
    let mut scan = SelfUsageScan { consuming: None, mutating: None, non_consuming: None };
    scan_block(body, &mut scan);
    self_mode_of_scan(&scan, ty_name, fn_name, ctx)
}

} // verus!
