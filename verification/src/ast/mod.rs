//! The syntax tree produced by the parser.
use vstd::prelude::*;
use crate::lexer::Span;

pub mod ty;
pub mod pattern;
pub mod expr;
pub mod stmt;
pub mod item;

pub use ty::{Type, RefRegion};
pub use pattern::Pattern;
pub use expr::{Expr, MatchArm, StructFieldInit, BinOp, UnaryOp, BorrowKind};
pub use stmt::Stmt;
pub use item::{Ast, Item, FunctionDef, ImplBlock, Param, StructDef, StructField, CopyMove, EnumDef, EnumVariant};

verus! {

/// A braced block: zero or more statements followed by an optional tail expression.
/// The tail expression (no trailing `;`) is the block's value.
#[derive(Debug, PartialEq)]
pub struct Block {
    pub stmts: Vec<Stmt>,
    pub tail: Option<Box<Expr>>,
    pub span: Span,
}

/// A literal value. A float literal holds its normalized text.
#[derive(Debug, Clone, PartialEq)]
pub enum Literal {
    Integer(i64),
    Float(String),
    Bool(bool),
    /// Raw source text — escape sequences not yet decoded.
    Str(String),
    Char(char),
}

impl Literal {
    /// An identical copy of this literal.
    pub fn duplicate(&self) -> (r: Literal)
        ensures
            r == *self,
    {
        match self {
            Literal::Integer(n) => Literal::Integer(*n),
            Literal::Float(s) => Literal::Float(s.clone()),
            Literal::Bool(b) => Literal::Bool(*b),
            Literal::Str(s) => Literal::Str(s.clone()),
            Literal::Char(c) => Literal::Char(*c),
        }
    }
}

} // verus!
