use vstd::prelude::*;
use crate::lexer::Span;

verus! {

/// A type expression as written in the source.
#[derive(Debug, PartialEq)]
pub enum Type {
    /// Named type: primitives (`i32`, `f64`, `bool`, `str`), user-defined, or generic
    /// instantiation (`Option<T>`). Primitives are `Named` with zero args.
    Named { name: String, args: Vec<Type>, span: Span },
    /// `&[mut] [region] InnerType` — borrow type.
    Ref { mutable: bool, region: Option<RefRegion>, inner: Box<Type>, span: Span },
    /// `Self` inside an impl block.
    SelfTy(Span),
}

impl Type {
    pub open spec fn spec_span(&self) -> Span {
        match self {
            Type::Named { span, .. } => *span,
            Type::Ref { span, .. } => *span,
            Type::SelfTy(s) => *s,
        }
    }

    pub fn span(&self) -> (r: Span)
        ensures
            r == self.spec_span(),
    {
        match self {
            Type::Named { span, .. } => *span,
            Type::Ref { span, .. } => *span,
            Type::SelfTy(s) => *s,
        }
    }
}

/// A region tag on a reference type.
#[derive(Debug, Clone, PartialEq)]
pub enum RefRegion {
    /// `r1`, `r2`, …
    Named(String),
    /// `static`
    Static,
}

} // verus!
