use vstd::prelude::*;
use crate::lexer::Span;
use super::{Block, Literal, Pattern, Type};

verus! {

#[derive(Debug, Clone, Copy, PartialEq, Eq, Structural)]
pub enum UnaryOp {
    Neg,       // `-`
    Not,       // `!`
    BitNot,    // `~`
    Borrow,    // `&`
    BorrowMut, // `&mut`
}

#[derive(Debug, Clone, Copy, PartialEq, Eq, Structural)]
pub enum BorrowKind {
    Shared, // `&`
    Mut,    // `&mut`
}

#[derive(Debug, Clone, Copy, PartialEq, Eq, Structural)]
pub enum BinOp {
    // Arithmetic
    Add, Sub, Mul, Div, Mod,
    // Comparison
    Eq, Ne, Lt, Gt, Le, Ge,
    // Logical
    And, Or,
    // Bitwise
    BitAnd, BitOr, BitXor, Shl, Shr,
    /// `?:` — fallback on an optional value
    Fallback,
}

/// An expression.
#[derive(Debug, PartialEq)]
pub enum Expr {
    Literal(Literal, Span),
    Ident(String, Span),
    Unary { op: UnaryOp, expr: Box<Expr>, span: Span },
    Binary { op: BinOp, left: Box<Expr>, right: Box<Expr>, span: Span },
    /// `callee(arg1, arg2, ...)` — free function call
    Call { callee: Box<Expr>, args: Vec<Expr>, span: Span },
    /// `object.field` — field access
    Field { object: Box<Expr>, field: String, field_span: Span, span: Span },
    /// `object.method(arg1, ...)` — method call
    MethodCall { object: Box<Expr>, method: String, method_span: Span, args: Vec<Expr>, span: Span },
    /// `expr?` — propagate operator
    Propagate { expr: Box<Expr>, span: Span },
    /// `expr as Type` — cast
    Cast { expr: Box<Expr>, ty: Box<Type>, span: Span },
    Block(Box<Block>),
    /// `if cond { then } [else { else } | else if ...]`
    If { condition: Box<Expr>, then_block: Box<Block>, else_branch: Option<Box<Expr>>, span: Span },
    While { condition: Box<Expr>, body: Box<Block>, span: Span },
    Loop { body: Box<Block>, span: Span },
    /// `for binding in [&[mut]] iterable { body }`
    For {
        binding: String,
        binding_span: Span,
        borrow: Option<BorrowKind>,
        iterable: Box<Expr>,
        body: Box<Block>,
        span: Span,
    },
    Match { subject: Box<Expr>, arms: Vec<MatchArm>, span: Span },
    /// `Name { field = expr, ... }` — struct literal
    StructLit { name: String, name_span: Span, fields: Vec<StructFieldInit>, span: Span },
}

impl Expr {
    pub open spec fn spec_span(&self) -> Span {
        match self {
            Expr::Literal(_, s) => *s,
            Expr::Ident(_, s) => *s,
            Expr::Unary { span, .. } => *span,
            Expr::Binary { span, .. } => *span,
            Expr::Call { span, .. } => *span,
            Expr::Field { span, .. } => *span,
            Expr::MethodCall { span, .. } => *span,
            Expr::Propagate { span, .. } => *span,
            Expr::Cast { span, .. } => *span,
            Expr::Block(b) => b.span,
            Expr::If { span, .. } => *span,
            Expr::While { span, .. } => *span,
            Expr::Loop { span, .. } => *span,
            Expr::For { span, .. } => *span,
            Expr::Match { span, .. } => *span,
            Expr::StructLit { span, .. } => *span,
        }
    }

    pub fn span(&self) -> (r: Span)
        ensures
            r == self.spec_span(),
    {
        match self {
            Expr::Literal(_, s) => *s,
            Expr::Ident(_, s) => *s,
            Expr::Unary { span, .. } => *span,
            Expr::Binary { span, .. } => *span,
            Expr::Call { span, .. } => *span,
            Expr::Field { span, .. } => *span,
            Expr::MethodCall { span, .. } => *span,
            Expr::Propagate { span, .. } => *span,
            Expr::Cast { span, .. } => *span,
            Expr::Block(b) => b.span,
            Expr::If { span, .. } => *span,
            Expr::While { span, .. } => *span,
            Expr::Loop { span, .. } => *span,
            Expr::For { span, .. } => *span,
            Expr::Match { span, .. } => *span,
            Expr::StructLit { span, .. } => *span,
        }
    }
}

/// `name = value` inside a struct literal.
#[derive(Debug, PartialEq)]
pub struct StructFieldInit {
    pub name: String,
    pub name_span: Span,
    pub value: Box<Expr>,
}

/// `pattern [if guard] => body`
#[derive(Debug, PartialEq)]
pub struct MatchArm {
    pub pattern: Pattern,
    pub guard: Option<Box<Expr>>,
    pub body: Expr,
    pub span: Span,
}

} // verus!
