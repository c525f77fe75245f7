//! Code generation: its errors, the source position it reports a statement
//! at, and the struct a typed receiver names (the LLVM back end itself is
//! not part of this library).
use vstd::prelude::*;
use crate::ast::Stmt;
use crate::lexer::Span;
use crate::text::{dec_text, push_str, push_usize};
use crate::typechecker::InferResult;
use crate::typechecker::env::type_at;
use crate::typechecker::ty::{ty_debug, ty_view, Ty, TyV};

pub mod error;
pub use error::CodegenError;

verus! {

/// The byte where a statement starts: where code generation reports a
/// statement it cannot lower.
pub fn stmt_span_start(stmt: &Stmt) -> (r: usize)
    ensures
        r == stmt.spec_span().start,
{
    match stmt {
        Stmt::Let { span, .. }
        | Stmt::Const { span, .. }
        | Stmt::Return { span, .. }
        | Stmt::Break { span, .. }
        | Stmt::Assign { span, .. }
        | Stmt::Expr { span, .. } => span.start,
        Stmt::Continue { span } => span.start,
    }
}

/// The struct named by the type recorded for `span`: a struct type, or a
/// reference to one (a method receiver borrowed from its struct); anything
/// else is an internal error whose message shows what was recorded.
pub fn struct_name_of(types: &InferResult, span: Span) -> (r: Result<String, String>)
    ensures
        match type_at(types.type_map@, span) {
            Some(TyV::Named(n)) => r matches Ok(s) && s@ == n,
            Some(TyV::Ref { inner, .. }) => match *inner {
                TyV::Named(n) => r matches Ok(s) && s@ == n,
                other => r matches Err(m) && m@ == "ICE: Ref inner type is not Named at byte "@
                    + dec_text(span.start as nat) + ": "@ + ty_debug(other),
            },
            Some(other) => r matches Err(m) && m@ == "ICE: expected Named or Ref<Named> type at byte "@
                + dec_text(span.start as nat) + ", got Some("@ + ty_debug(other) + ")"@,
            None => r matches Err(m) && m@ == "ICE: expected Named or Ref<Named> type at byte "@
                + dec_text(span.start as nat) + ", got None"@,
        },
{
    let found = types.type_of(span);
    proof {
        reveal_with_fuel(ty_view, 2);
    }
    match found {
        Some(Ty::Named(n)) => Ok(n.clone()),
        Some(Ty::Ref { inner, .. }) => match &**inner {
            Ty::Named(n) => Ok(n.clone()),
            other => {
                let mut m = String::new();
                push_str(&mut m, "ICE: Ref inner type is not Named at byte ");
                push_usize(&mut m, span.start);
                push_str(&mut m, ": ");
                other.push_debug(&mut m);
                Err(m)
            },
        },
        Some(other) => {
            let mut m = String::new();
            push_str(&mut m, "ICE: expected Named or Ref<Named> type at byte ");
            push_usize(&mut m, span.start);
            push_str(&mut m, ", got Some(");
            other.push_debug(&mut m);
            push_str(&mut m, ")");
            Err(m)
        },
        None => {
            let mut m = String::new();
            push_str(&mut m, "ICE: expected Named or Ref<Named> type at byte ");
            push_usize(&mut m, span.start);
            push_str(&mut m, ", got None");
            Err(m)
        },
    }
}

} // verus!
