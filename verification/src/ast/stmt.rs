use vstd::prelude::*;
use crate::lexer::Span;
use super::{Ast, BinOp, Block, Expr, FunctionDef, Item, MatchArm, Type};

verus! {

/// A statement.
#[derive(Debug, PartialEq)]
pub enum Stmt {
    /// `let [mut] name[: Type] = init;`
    Let { mutable: bool, name: String, name_span: Span, ty: Option<Type>, init: Box<Expr>, span: Span },
    /// `const name: Type = init;`
    Const { name: String, name_span: Span, ty: Type, init: Box<Expr>, span: Span },
    /// `return [expr];`
    Return { value: Option<Box<Expr>>, span: Span },
    /// `break [expr];`
    Break { value: Option<Box<Expr>>, span: Span },
    /// `continue;`
    Continue { span: Span },
    /// `lvalue [op]= rhs;` — `op` is `None` for plain `=`
    Assign { target: Box<Expr>, op: Option<BinOp>, value: Box<Expr>, span: Span },
    /// Expression used as a statement. Inside `Block::stmts` this variant always has
    /// `has_semicolon: true`; a semicolon-less expression becomes `Block::tail`.
    Expr { expr: Box<Expr>, has_semicolon: bool, span: Span },
}

impl Stmt {
    /// The span of the whole statement.
    pub open spec fn spec_span(&self) -> Span {
        match self {
            Stmt::Let { span, .. } => *span,
            Stmt::Const { span, .. } => *span,
            Stmt::Return { span, .. } => *span,
            Stmt::Break { span, .. } => *span,
            Stmt::Continue { span } => *span,
            Stmt::Assign { span, .. } => *span,
            Stmt::Expr { span, .. } => *span,
        }
    }
}

/// The block law: every expression statement kept in `stmts` ends with `;`
/// (a semicolon-less final expression is the block's tail instead).
pub open spec fn block_wf(b: &Block) -> bool {
    forall|i: int| 0 <= i < b.stmts@.len() ==>
        (#[trigger] b.stmts@[i] matches Stmt::Expr { has_semicolon, .. } ==> has_semicolon)
}

/// The block law holds of every block in an expression, however deeply nested.
pub open spec fn expr_tree_wf(e: Expr) -> bool
    decreases e,
{
    match e {
        Expr::Literal(..) => true,
        Expr::Ident(..) => true,
        Expr::Unary { expr, .. } => expr_tree_wf(*expr),
        Expr::Binary { left, right, .. } => expr_tree_wf(*left) && expr_tree_wf(*right),
        Expr::Call { callee, args, .. } => expr_tree_wf(*callee)
            && forall|i: int| 0 <= i < args@.len() ==> expr_tree_wf(#[trigger] args@[i]),
        Expr::Field { object, .. } => expr_tree_wf(*object),
        Expr::MethodCall { object, args, .. } => expr_tree_wf(*object)
            && forall|i: int| 0 <= i < args@.len() ==> expr_tree_wf(#[trigger] args@[i]),
        Expr::Propagate { expr, .. } => expr_tree_wf(*expr),
        Expr::Cast { expr, .. } => expr_tree_wf(*expr),
        Expr::Block(b) => block_tree_wf(*b),
        Expr::If { condition, then_block, else_branch, .. } => expr_tree_wf(*condition)
            && block_tree_wf(*then_block)
            && match else_branch {
                Some(e2) => expr_tree_wf(*e2),
                None => true,
            },
        Expr::While { condition, body, .. } => expr_tree_wf(*condition) && block_tree_wf(*body),
        Expr::Loop { body, .. } => block_tree_wf(*body),
        Expr::For { iterable, body, .. } => expr_tree_wf(*iterable) && block_tree_wf(*body),
        Expr::Match { subject, arms, .. } => expr_tree_wf(*subject)
            && forall|i: int| 0 <= i < arms@.len() ==> arm_tree_wf(#[trigger] arms@[i]),
        Expr::StructLit { fields, .. } =>
            forall|i: int| 0 <= i < fields@.len() ==> expr_tree_wf(*(#[trigger] fields@[i]).value),
    }
}

/// The block law holds of a block and of every block nested in it.
pub open spec fn block_tree_wf(b: Block) -> bool
    decreases b,
{
    &&& block_wf(&b)
    &&& forall|i: int| 0 <= i < b.stmts@.len() ==> stmt_tree_wf(#[trigger] b.stmts@[i])
    &&& match b.tail {
        Some(t) => expr_tree_wf(*t),
        None => true,
    }
}

/// The block law holds of every block nested in a statement.
pub open spec fn stmt_tree_wf(s: Stmt) -> bool
    decreases s,
{
    match s {
        Stmt::Let { init, .. } => expr_tree_wf(*init),
        Stmt::Const { init, .. } => expr_tree_wf(*init),
        Stmt::Return { value, .. } => match value {
            Some(v) => expr_tree_wf(*v),
            None => true,
        },
        Stmt::Break { value, .. } => match value {
            Some(v) => expr_tree_wf(*v),
            None => true,
        },
        Stmt::Continue { .. } => true,
        Stmt::Assign { target, value, .. } => expr_tree_wf(*target) && expr_tree_wf(*value),
        Stmt::Expr { expr, .. } => expr_tree_wf(*expr),
    }
}

/// The block law holds of every block in a match arm's guard and body.
pub open spec fn arm_tree_wf(a: MatchArm) -> bool
    decreases a,
{
    &&& match a.guard {
        Some(g) => expr_tree_wf(*g),
        None => true,
    }
    &&& expr_tree_wf(a.body)
}

/// The block law holds of every block of every function and method.
pub open spec fn item_tree_wf(it: Item) -> bool {
    match it {
        Item::Function(f) => block_tree_wf(f.body),
        Item::Impl(b) => forall|i: int| 0 <= i < b.methods@.len() ==> block_tree_wf((#[trigger] b.methods@[i]).body),
        Item::Struct(_) => true,
        Item::Enum(_) => true,
    }
}

/// The block law holds throughout a program.
pub open spec fn ast_wf(a: Ast) -> bool {
    forall|i: int| 0 <= i < a.items@.len() ==> item_tree_wf(#[trigger] a.items@[i])
}

} // verus!
